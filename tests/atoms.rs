use cyberspace_emissary::atoms::{
    collides, figures_overlap, is_point_in_rect, Color, Figure, Position, Size, Sprite,
};

fn block(x: i32, y: i32, w: i32, h: i32) -> Figure {
    let mut f = Figure::new();
    f.position = Position::new(x, y);
    let mut s = Sprite::new();
    s.size = Size::new(w, h);
    f.sprites.push(s);
    f
}

#[test]
fn named_colors() {
    assert_eq!(Color::black(), Color::new(0, 0, 0));
    assert_eq!(Color::white(), Color::new(255, 255, 255));
    assert_eq!(Color::red(), Color::new(255, 0, 0));
    assert_eq!(Color::green(), Color::new(0, 255, 0));
    assert_eq!(Color::blue(), Color::new(0, 0, 255));
    assert_eq!(Color::magenta(), Color::new(255, 0, 255));
    assert_eq!(Color::yellow(), Color::new(255, 255, 0));
    assert_eq!(Color::cyan(), Color::new(0, 255, 255));
}

#[test]
fn position_arithmetic() {
    let a = Position::new(7, -2);
    let b = Position::new(3, 5);
    assert_eq!(a.plus(b), Position::new(10, 3));
    assert_eq!(a.minus(b), Position::new(4, -7));
    assert_eq!(a.relative_to(b), Position::new(4, -7));
    assert_eq!(Position::origin(), Position::new(0, 0));
}

#[test]
fn size_fits_in_both_dimensions() {
    let a = Size::new(2, 3);
    assert!(a.fits_in(&Size::new(2, 3)));
    assert!(a.fits_in(&Size::new(5, 9)));
    assert!(!a.fits_in(&Size::new(1, 9)));
    assert!(!a.fits_in(&Size::new(9, 2)));
    assert!(!Size::new(5, 9).fits_in(&a));
}

#[test]
fn content_size_of_two_lines() {
    assert_eq!(Sprite::get_content_size("ab\ncde"), Size::new(3, 2));
}

#[test]
fn content_size_edge_cases() {
    assert_eq!(Sprite::get_content_size(""), Size::new(0, 1));
    assert_eq!(Sprite::get_content_size("abc\n"), Size::new(3, 2));
    assert_eq!(Sprite::get_content_size("\u{25b2}\u{25b2}"), Size::new(2, 1));
}

#[test]
fn sprite_size_follows_content() {
    let s = Sprite::from_text("x\nyyyy\nzz", Color::red(), Position::new(1, 2));
    assert_eq!(s.size, Size::new(4, 3));
    assert_eq!(Sprite::get_sprite_size(&s), Size::new(4, 3));
    assert_eq!(s.offset, Position::new(1, 2));
    assert!(s.active);
}

#[test]
fn point_in_rect_is_half_open() {
    let pos = Position::new(1, 1);
    let size = Size::new(2, 2);
    assert!(is_point_in_rect(&Position::new(1, 1), &pos, &size));
    assert!(is_point_in_rect(&Position::new(2, 2), &pos, &size));
    assert!(!is_point_in_rect(&Position::new(3, 2), &pos, &size));
    assert!(!is_point_in_rect(&Position::new(2, 3), &pos, &size));
    assert!(!is_point_in_rect(&Position::new(0, 1), &pos, &size));
}

#[test]
fn corner_test_checks_one_direction() {
    // A small block inside a big one: its corners lie in the big one, but
    // none of the big block's corners lies in it.
    let big = block(0, 0, 10, 10);
    let small = block(4, 4, 2, 2);
    assert!(collides(&big, &small));
    assert!(!collides(&small, &big));
    assert!(figures_overlap(&big, &small));
    assert!(figures_overlap(&small, &big));
}

#[test]
fn corner_test_misses_crossing_bars() {
    let horizontal = block(0, 5, 10, 1);
    let vertical = block(5, 0, 1, 10);
    assert!(!collides(&horizontal, &vertical));
    assert!(!collides(&vertical, &horizontal));
    assert!(!figures_overlap(&horizontal, &vertical));
}

#[test]
fn touching_edges_count_as_contact() {
    let a = block(0, 0, 3, 3);
    let b = block(3, 0, 1, 1);
    assert!(collides(&b, &a));
    assert!(figures_overlap(&a, &b));
}

#[test]
fn hidden_or_inactive_sprites_never_collide() {
    let big = block(0, 0, 10, 10);
    let mut small = block(4, 4, 2, 2);
    small.visible = false;
    assert!(!figures_overlap(&big, &small));
    small.visible = true;
    small.sprites[0].active = false;
    assert!(!figures_overlap(&big, &small));
}
