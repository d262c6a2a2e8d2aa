//! Geometry primitives, sprites, figures, rooms and the collision test.
use vstd::prelude::*;

verus! {

/// Index of an entity in the game's arena.
pub type EntityID = usize;

/// Index of a room in the game.
pub type RoomID = usize;

/// Index of a sprite in a figure.
pub type SpriteID = usize;

/// Logical state of an animated entity.
pub type StateID = usize;

#[derive(Clone, Copy, Debug, PartialEq, Eq, Structural)]
pub struct Color {
    pub r: u8,
    pub g: u8,
    pub b: u8,
}

impl Color {
    pub fn new(r: u8, g: u8, b: u8) -> (c: Self)
        ensures
            c == (Color { r, g, b }),
    {
        Self { r, g, b }
    }

    pub fn black() -> (c: Self)
        ensures
            c == (Color { r: 0, g: 0, b: 0 }),
    {
        Self::new(0, 0, 0)
    }

    pub open spec fn white_spec() -> Self {
        Color { r: 255, g: 255, b: 255 }
    }

    pub fn white() -> (c: Self)
        ensures
            c == Color::white_spec(),
    {
        Self::new(255, 255, 255)
    }

    pub fn red() -> (c: Self)
        ensures
            c == (Color { r: 255, g: 0, b: 0 }),
    {
        Self::new(255, 0, 0)
    }

    pub fn green() -> (c: Self)
        ensures
            c == (Color { r: 0, g: 255, b: 0 }),
    {
        Self::new(0, 255, 0)
    }

    pub fn blue() -> (c: Self)
        ensures
            c == (Color { r: 0, g: 0, b: 255 }),
    {
        Self::new(0, 0, 255)
    }

    pub fn magenta() -> (c: Self)
        ensures
            c == (Color { r: 255, g: 0, b: 255 }),
    {
        Self::new(255, 0, 255)
    }

    pub fn yellow() -> (c: Self)
        ensures
            c == (Color { r: 255, g: 255, b: 0 }),
    {
        Self::new(255, 255, 0)
    }

    pub fn cyan() -> (c: Self)
        ensures
            c == (Color { r: 0, g: 255, b: 255 }),
    {
        Self::new(0, 255, 255)
    }
}

#[derive(Clone, Copy, Debug, PartialEq, Eq, Structural)]
pub struct Position {
    pub x: i32,
    pub y: i32,
}

/// Whether `a + b` fits in an `i32` on both axes.
pub open spec fn sum_fits(a: Position, b: Position) -> bool {
    i32::MIN <= a.x + b.x <= i32::MAX && i32::MIN <= a.y + b.y <= i32::MAX
}

/// Whether `a - b` fits in an `i32` on both axes.
pub open spec fn difference_fits(a: Position, b: Position) -> bool {
    i32::MIN <= a.x - b.x <= i32::MAX && i32::MIN <= a.y - b.y <= i32::MAX
}

impl Position {
    pub fn new(x: i32, y: i32) -> (p: Self)
        ensures
            p == (Position { x, y }),
    {
        Self { x, y }
    }

    pub fn origin() -> (p: Self)
        ensures
            p == (Position { x: 0, y: 0 }),
    {
        Self::new(0, 0)
    }

    /// Component-wise sum.
    pub fn plus(self, other: Self) -> (p: Self)
        requires
            sum_fits(self, other),
        ensures
            p.x == self.x + other.x,
            p.y == self.y + other.y,
    {
        Self { x: self.x + other.x, y: self.y + other.y }
    }

    /// Component-wise difference.
    pub fn minus(self, other: Self) -> (p: Self)
        requires
            difference_fits(self, other),
        ensures
            p.x == self.x - other.x,
            p.y == self.y - other.y,
    {
        Self { x: self.x - other.x, y: self.y - other.y }
    }

    /// This position seen from a view whose top-left corner is `other`.
    pub fn relative_to(self, other: Self) -> (p: Self)
        requires
            difference_fits(self, other),
        ensures
            p.x == self.x - other.x,
            p.y == self.y - other.y,
    {
        self.minus(other)
    }
}

#[derive(Clone, Copy, Debug, PartialEq, Eq, Structural)]
pub struct Size {
    pub width: i32,
    pub height: i32,
}

impl Size {
    pub fn new(width: i32, height: i32) -> (s: Self)
        ensures
            s == (Size { width, height }),
    {
        Self { width, height }
    }

    /// Whether a box of this size fits inside a box of size `other`.
    pub fn fits_in(&self, other: &Self) -> (r: bool)
        ensures
            r == (self.width <= other.width && self.height <= other.height),
    {
        self.width <= other.width && self.height <= other.height
    }
}


/// Number of line breaks in `s`.
pub open spec fn newline_count(s: Seq<char>) -> nat
    decreases s.len(),
{
    if s.len() == 0 {
        0
    } else {
        newline_count(s.drop_last()) + if s.last() == '\n' {
            1nat
        } else {
            0nat
        }
    }
}

/// Length of the last line of `s` (the text after its last line break).
pub open spec fn last_line_len(s: Seq<char>) -> nat
    decreases s.len(),
{
    if s.len() == 0 {
        0
    } else if s.last() == '\n' {
        0
    } else {
        last_line_len(s.drop_last()) + 1
    }
}

/// Length of the longest line of `s`.
pub open spec fn text_width(s: Seq<char>) -> nat
    decreases s.len(),
{
    if s.len() == 0 {
        0
    } else {
        let w = text_width(s.drop_last());
        let l = last_line_len(s);
        if w >= l {
            w
        } else {
            l
        }
    }
}

/// Number of lines of `s`: one more than its line breaks.
pub open spec fn text_height(s: Seq<char>) -> nat {
    newline_count(s) + 1
}

/// `n` as an `i32`, capped at `i32::MAX`.
pub open spec fn clamp_i32(n: nat) -> i32 {
    if n >= i32::MAX {
        i32::MAX
    } else {
        n as i32
    }
}

/// Whether `size` is the bounding size of the text block `s` (each side
/// capped at `i32::MAX`).
pub open spec fn is_text_size(size: Size, s: Seq<char>) -> bool {
    size.width == clamp_i32(text_width(s)) && size.height == clamp_i32(text_height(s))
}

pub proof fn lemma_text_measures_bounded(s: Seq<char>)
    ensures
        newline_count(s) <= s.len(),
        last_line_len(s) <= s.len(),
        text_width(s) <= s.len(),
    decreases s.len(),
{
    if s.len() > 0 {
        lemma_text_measures_bounded(s.drop_last());
    }
}

/// The characters of `s`, in order.
pub fn chars_of(s: &str) -> (v: Vec<char>)
    ensures
        v@ == s@,
{
    let n = s.unicode_len();
    let mut v: Vec<char> = Vec::new();
    let mut i: usize = 0;
    while i < n
        invariant
            n == s@.len(),
            i <= n,
            v@ == s@.take(i as int),
        decreases n - i,
    {
        v.push(s.get_char(i));
        i += 1;
        assert(v@ =~= s@.take(i as int));
    }
    assert(s@.take(n as int) =~= s@);
    v
}

/// Bounding size of a text block: its line count and longest line.
pub fn content_size_of(content: &Vec<char>) -> (size: Size)
    ensures
        is_text_size(size, content@),
{
    let n = content.len();
    let mut breaks: usize = 0;
    let mut width: usize = 0;
    let mut line: usize = 0;
    let mut i: usize = 0;
    while i < n
        invariant
            n == content@.len(),
            i <= n,
            breaks == newline_count(content@.take(i as int)),
            line == last_line_len(content@.take(i as int)),
            width == text_width(content@.take(i as int)),
        decreases n - i,
    {
        proof {
            lemma_text_measures_bounded(content@.take(i as int));
            assert(content@.take(i as int + 1).drop_last() =~= content@.take(i as int));
        }
        if content[i] == '\n' {
            breaks = breaks + 1;
            line = 0;
        } else {
            line = line + 1;
        }
        if line > width {
            width = line;
        }
        i += 1;
    }
    assert(content@.take(n as int) =~= content@);
    let w: i32 = if width >= i32::MAX as usize {
        i32::MAX
    } else {
        width as i32
    };
    let h: i32 = if breaks >= (i32::MAX - 1) as usize {
        i32::MAX
    } else {
        breaks as i32 + 1
    };
    Size::new(w, h)
}

pub struct Sprite {
    pub color: Color,
    /// Text block, lines separated by `'\n'`.
    pub content: Vec<char>,
    /// Offset of the sprite's top-left corner from its figure's position.
    pub offset: Position,
    pub size: Size,
    pub active: bool,
}

impl Sprite {
    /// An empty, active, white sprite at the figure's origin.
    pub fn new() -> (s: Self)
        ensures
            s.color == Color::white_spec(),
            s.content@ == Seq::<char>::empty(),
            s.offset == (Position { x: 0, y: 0 }),
            s.size == (Size { width: 0, height: 0 }),
            s.active,
    {
        Self {
            color: Color::white(),
            content: Vec::new(),
            offset: Position::origin(),
            size: Size::new(0, 0),
            active: true,
        }
    }

    /// An active sprite showing `content`, sized to fit it.
    pub fn from_text(content: &str, color: Color, offset: Position) -> (s: Self)
        ensures
            s.color == color,
            s.content@ == content@,
            s.offset == offset,
            is_text_size(s.size, content@),
            s.active,
    {
        let chars = chars_of(content);
        let size = content_size_of(&chars);
        Self { color, content: chars, offset, size, active: true }
    }

    /// Bounding size of a text block: height is its line count, width its
    /// longest line in characters.
    pub fn get_content_size(content: &str) -> (size: Size)
        ensures
            is_text_size(size, content@),
    {
        let chars = chars_of(content);
        content_size_of(&chars)
    }

    /// Bounding size of the sprite's current content.
    pub fn get_sprite_size(sprite: &Self) -> (size: Size)
        ensures
            is_text_size(size, sprite.content@),
    {
        content_size_of(&sprite.content)
    }
}

/// A positioned collection of sprites.
pub struct Figure {
    pub sprites: Vec<Sprite>,
    pub position: Position,
    /// When false the whole figure is hidden, whatever its sprites' flags.
    pub visible: bool,
}

impl Figure {
    pub fn new() -> (f: Self)
        ensures
            f.sprites@.len() == 0,
            f.position == (Position { x: 0, y: 0 }),
            f.visible,
    {
        Self { sprites: Vec::new(), position: Position::origin(), visible: true }
    }
}

/// A bounded area that lists, in drawing order, the entities it shows.
pub struct Room {
    pub entities: Vec<EntityID>,
    pub size: Size,
}

impl Room {
    pub fn new(size: Size) -> (r: Self)
        ensures
            r.entities@.len() == 0,
            r.size == size,
    {
        Self { entities: Vec::new(), size }
    }
}

/// Whether the point `(px, py)` lies in the half-open rectangle with top-left
/// corner `(rx, ry)` and size `w` by `h`.
pub open spec fn in_rect(px: int, py: int, rx: int, ry: int, w: int, h: int) -> bool {
    rx <= px < rx + w && ry <= py < ry + h
}

pub fn is_point_in_rect(point: &Position, rect_pos: &Position, rect_size: &Size) -> (r: bool)
    ensures
        r == in_rect(
            point.x as int,
            point.y as int,
            rect_pos.x as int,
            rect_pos.y as int,
            rect_size.width as int,
            rect_size.height as int,
        ),
{
    point_in_rect(
        point.x as i64,
        point.y as i64,
        rect_pos.x as i64,
        rect_pos.y as i64,
        rect_size.width as i64,
        rect_size.height as i64,
    )
}

fn point_in_rect(px: i64, py: i64, rx: i64, ry: i64, w: i64, h: i64) -> (r: bool)
    requires
        i32::MIN * 3 <= rx <= i32::MAX * 3,
        i32::MIN * 3 <= ry <= i32::MAX * 3,
        i32::MIN <= w <= i32::MAX,
        i32::MIN <= h <= i32::MAX,
    ensures
        r == in_rect(px as int, py as int, rx as int, ry as int, w as int, h as int),
{
    px >= rx && py >= ry && px < rx + w && py < ry + h
}

/// Absolute column of a sprite's left edge.
pub open spec fn sprite_x(fig: Figure, s: Sprite) -> int {
    fig.position.x + s.offset.x
}

/// Absolute row of a sprite's top edge.
pub open spec fn sprite_y(fig: Figure, s: Sprite) -> int {
    fig.position.y + s.offset.y
}

/// Whether a corner of sprite `s2` of `fig2` lies in sprite `s1` of `fig1`.
/// The corners are the rectangle's origin and the points one width and one
/// height further along each axis.
pub open spec fn corner_inside(fig1: Figure, s1: Sprite, fig2: Figure, s2: Sprite) -> bool {
    let x1 = sprite_x(fig1, s1);
    let y1 = sprite_y(fig1, s1);
    let w1 = s1.size.width as int;
    let h1 = s1.size.height as int;
    let x2 = sprite_x(fig2, s2);
    let y2 = sprite_y(fig2, s2);
    let w2 = s2.size.width as int;
    let h2 = s2.size.height as int;
    in_rect(x2, y2, x1, y1, w1, h1) || in_rect(x2, y2 + h2, x1, y1, w1, h1) || in_rect(
        x2 + w2,
        y2,
        x1,
        y1,
        w1,
        h1,
    ) || in_rect(x2 + w2, y2 + h2, x1, y1, w1, h1)
}

/// Whether active sprite `j` of `fig2` has a corner in active sprite `i` of `fig1`.
pub open spec fn sprites_touch(fig1: Figure, fig2: Figure, i: int, j: int) -> bool {
    &&& 0 <= i < fig1.sprites@.len()
    &&& 0 <= j < fig2.sprites@.len()
    &&& fig1.sprites@[i].active
    &&& fig2.sprites@[j].active
    &&& corner_inside(fig1, fig1.sprites@[i], fig2, fig2.sprites@[j])
}

/// One pass of the corner-containment test: both figures are visible and some
/// corner of an active sprite of `fig2` lies in an active sprite of `fig1`.
pub open spec fn collides_spec(fig1: Figure, fig2: Figure) -> bool {
    fig1.visible && fig2.visible && exists|i: int, j: int| #[trigger]
        sprites_touch(fig1, fig2, i, j)
}

/// The corner test run in both directions.
pub open spec fn overlap_spec(fig1: Figure, fig2: Figure) -> bool {
    collides_spec(fig1, fig2) || collides_spec(fig2, fig1)
}

/// Corner-containment test of `fig2`'s sprite corners against `fig1`'s
/// sprites. It can miss two thin rectangles crossing each other with no
/// corner of either inside the other.
pub fn collides(fig1: &Figure, fig2: &Figure) -> (r: bool)
    ensures
        r == collides_spec(*fig1, *fig2),
{
    if !fig1.visible || !fig2.visible {
        return false;
    }
    let n1 = fig1.sprites.len();
    let n2 = fig2.sprites.len();
    let mut i: usize = 0;
    while i < n1
        invariant
            fig1.visible && fig2.visible,
            n1 == fig1.sprites@.len(),
            n2 == fig2.sprites@.len(),
            i <= n1,
            forall|a: int, b: int| 0 <= a < i ==> !#[trigger] sprites_touch(*fig1, *fig2, a, b),
        decreases n1 - i,
    {
        let s1 = &fig1.sprites[i];
        let mut j: usize = 0;
        while j < n2
            invariant
                fig1.visible && fig2.visible,
                n1 == fig1.sprites@.len(),
                n2 == fig2.sprites@.len(),
                i < n1,
                j <= n2,
                *s1 == fig1.sprites@[i as int],
                forall|a: int, b: int| 0 <= a < i ==> !#[trigger] sprites_touch(*fig1, *fig2, a, b),
                forall|b: int| 0 <= b < j ==> !#[trigger] sprites_touch(*fig1, *fig2, i as int, b),
            decreases n2 - j,
        {
            let s2 = &fig2.sprites[j];
            if s1.active && s2.active && sprite_corner_inside(fig1, s1, fig2, s2) {
                assert(sprites_touch(*fig1, *fig2, i as int, j as int));
                return true;
            }
            j += 1;
        }
        i += 1;
    }
    false
}

fn sprite_corner_inside(fig1: &Figure, s1: &Sprite, fig2: &Figure, s2: &Sprite) -> (r: bool)
    ensures
        r == corner_inside(*fig1, *s1, *fig2, *s2),
{
    let x1 = fig1.position.x as i64 + s1.offset.x as i64;
    let y1 = fig1.position.y as i64 + s1.offset.y as i64;
    let w1 = s1.size.width as i64;
    let h1 = s1.size.height as i64;
    let x2 = fig2.position.x as i64 + s2.offset.x as i64;
    let y2 = fig2.position.y as i64 + s2.offset.y as i64;
    let w2 = s2.size.width as i64;
    let h2 = s2.size.height as i64;
    point_in_rect(x2, y2, x1, y1, w1, h1) || point_in_rect(x2, y2 + h2, x1, y1, w1, h1)
        || point_in_rect(x2 + w2, y2, x1, y1, w1, h1) || point_in_rect(
        x2 + w2,
        y2 + h2,
        x1,
        y1,
        w1,
        h1,
    )
}

/// The corner test in both directions: whether either figure has a sprite
/// corner inside the other.
pub fn figures_overlap(fig1: &Figure, fig2: &Figure) -> (r: bool)
    ensures
        r == overlap_spec(*fig1, *fig2),
{
    collides(fig1, fig2) || collides(fig2, fig1)
}

/// The two-way corner test does not depend on the order of its arguments.
pub proof fn lemma_overlap_symmetric(fig1: Figure, fig2: Figure)
    ensures
        overlap_spec(fig1, fig2) == overlap_spec(fig2, fig1),
{
}

} // verus!
