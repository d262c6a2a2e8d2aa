use cyberspace_emissary::ascii_art::{
    HERO, HERO_CROUCHED_HEIGHT, HERO_CROUCHING_1, HERO_CROUCHING_2, HERO_FALL, HERO_HEIGHT,
    HERO_JUMPING_HEIGHT, HERO_JUMPING_LEFT, HERO_JUMPING_RIGHT, HERO_WIDTH, WORLD_HEIGHT,
    WORLD_MIN_WIDTH,
};
use cyberspace_emissary::atoms::Sprite;
use cyberspace_emissary::entities::Entity;
use cyberspace_emissary::atoms::{Color, Position, Size};
use cyberspace_emissary::entities::StaticEntity;
use cyberspace_emissary::game::Game;
use cyberspace_emissary::game_objects::{
    HeroController, SpellConsole, SwordController, HERO_STATE_CROUCHING, HERO_STATE_FALLING,
    HERO_STATE_JUMPING_LEFT, HERO_STATE_JUMPING_RIGHT, HERO_STATE_NORMAL,
};
use cyberspace_emissary::special_key_codes::{
    KEY_ATTACK, KEY_BACKSPACE, KEY_CROUCH, KEY_ENTER, KEY_JUMP, KEY_LEFT, KEY_RIGHT,
};

const FLOOR: i32 = WORLD_HEIGHT - 1;

fn hero_pos(g: &Game) -> Position {
    g.entities[g.hero_id].get_figure().position
}

fn hero_state(g: &Game) -> usize {
    g.entities[g.hero_id].get_state()
}

fn room_size() -> Size {
    Size::new(WORLD_MIN_WIDTH * 2, WORLD_HEIGHT)
}

fn floor() -> StaticEntity {
    StaticEntity::new("-".repeat(200), Color::white(), Position::new(0, FLOOR))
}

fn spike(x: i32, y: i32) -> StaticEntity {
    StaticEntity::hostile(String::from("^"), Color::red(), Position::new(x, y), 1)
}

fn row(g: &Game, y: usize) -> String {
    g.symbol_buffer[y].iter().collect()
}

#[test]
fn new_game_starts_at_origin() {
    let g = Game::new(Size::new(100, 30));
    assert_eq!(hero_pos(&g), Position::origin());
    assert_eq!(hero_state(&g), HERO_STATE_NORMAL);
    assert!(!g.stopped);
    assert_eq!(g.symbol_buffer.len(), 30);
    assert_eq!(g.symbol_buffer[0].len(), 100);
    assert_eq!(g.color_buffer.len(), 30);
    assert_eq!(g.cursor_position, Position::new(0, 29));
}

#[test]
fn moving_left_at_left_edge_is_rejected() {
    let mut g = Game::new(Size::new(100, 30));
    g.process_key(KEY_LEFT, false);
    assert_eq!(hero_pos(&g), Position::origin());
    g.process_key(KEY_RIGHT, false);
    assert_eq!(hero_pos(&g), Position::new(1, 0));
    g.process_key(KEY_LEFT, false);
    assert_eq!(hero_pos(&g), Position::origin());
}

#[test]
fn stepping_onto_hazard_respawns() {
    let mut g = Game::with_scenery(
        Size::new(20, 30),
        room_size(),
        Position::new(30, 10),
        vec![spike(35, 10)],
    );
    g.hero.jump_potential = 3;
    // The first step scrolls the view.
    g.process_key(KEY_RIGHT, false);
    assert_eq!(hero_pos(&g), Position::new(31, 10));
    assert_eq!(g.view_position, Position::new(1, 0));
    // On the second the hero's right edge reaches the spike's column.
    g.process_key(KEY_RIGHT, false);
    assert_eq!(hero_pos(&g), Position::origin());
    assert_eq!(g.hero.jump_potential, 0);
    assert_eq!(g.view_position, Position::origin());
    let sword = g.entities[g.sword_id].get_figure().position;
    assert_eq!(sword, Position::new(3, 0));
}

#[test]
fn walking_into_solid_is_blocked() {
    let wall = StaticEntity::new(String::from("#\n#\n#"), Color::white(), Position::new(5, 10));
    let mut g = Game::with_scenery(Size::new(80, 30), room_size(), Position::new(0, 10), vec![wall]);
    g.process_key(KEY_RIGHT, false);
    assert_eq!(hero_pos(&g), Position::new(1, 10));
    // One more column and the hero's right edge would touch the wall.
    g.process_key(KEY_RIGHT, false);
    assert_eq!(hero_pos(&g), Position::new(1, 10));
    let sword = g.entities[g.sword_id].get_figure().position;
    assert_eq!(sword, Position::new(4, 10));
}

#[test]
fn hero_walks_into_spike_on_floor() {
    // Hero at (0, floor-3) and a spike at (5, floor): the hero's lower right
    // corner reaches the spike's cell on the second step, so the hero is back
    // at the origin from then on and is not at (5, floor-3) after five steps.
    let mut g = Game::with_scenery(
        Size::new(80, 30),
        room_size(),
        Position::new(0, FLOOR - 3),
        vec![spike(5, FLOOR)],
    );
    let mut died = false;
    for step in 1..=5 {
        g.process_key(KEY_RIGHT, false);
        if step == 2 {
            assert_eq!(hero_pos(&g), Position::origin());
            died = true;
        }
    }
    assert!(died);
    assert_ne!(hero_pos(&g), Position::new(5, FLOOR - 3));
    assert_eq!(hero_pos(&g), Position::new(3, 0));
}

#[test]
fn view_scrolls_right_near_edge() {
    let mut g = Game::with_scenery(Size::new(20, 30), room_size(), Position::new(5, 10), vec![]);
    g.process_key(KEY_RIGHT, false);
    assert_eq!(hero_pos(&g), Position::new(6, 10));
    assert_eq!(g.view_position, Position::origin());
    g.process_key(KEY_RIGHT, false);
    assert_eq!(g.view_position, Position::origin());
    // Stepping from column 7, the right edge 7 + 1 + 3 passes 20 - 10.
    g.process_key(KEY_RIGHT, false);
    assert_eq!(hero_pos(&g), Position::new(8, 10));
    assert_eq!(g.view_position, Position::new(1, 0));
}

#[test]
fn gravity_lands_hero_above_floor() {
    let mut g = Game::with_scenery(Size::new(80, 30), room_size(), Position::new(2, 20), vec![floor()]);
    g.render();
    assert_eq!(hero_pos(&g), Position::new(2, 21));
    assert_eq!(hero_state(&g), HERO_STATE_FALLING);
    for _ in 0..10 {
        g.render();
    }
    // The hero's lower corners would touch the floor's row one row lower.
    assert_eq!(hero_pos(&g), Position::new(2, FLOOR - 4));
    assert_eq!(hero_state(&g), HERO_STATE_NORMAL);
}

#[test]
fn jump_rises_then_falls_back() {
    let mut g = Game::with_scenery(Size::new(80, 30), room_size(), Position::new(2, FLOOR - 4), vec![floor()]);
    g.render();
    assert_eq!(hero_pos(&g), Position::new(2, FLOOR - 4));
    g.process_key(KEY_JUMP, false);
    assert_eq!(g.hero.jump_potential, HERO_JUMPING_HEIGHT);
    assert_eq!(hero_state(&g), HERO_STATE_JUMPING_RIGHT);
    g.render();
    assert_eq!(hero_pos(&g), Position::new(2, FLOOR - 5));
    assert_eq!(g.hero.jump_potential, HERO_JUMPING_HEIGHT - 1);
    // A second jump in the air does not add height.
    g.process_key(KEY_JUMP, false);
    assert_eq!(g.hero.jump_potential, HERO_JUMPING_HEIGHT - 1);
    g.process_key(KEY_LEFT, false);
    assert_eq!(hero_state(&g), HERO_STATE_JUMPING_LEFT);
    for _ in 0..40 {
        g.render();
    }
    assert_eq!(hero_pos(&g).y, FLOOR - 4);
    assert_eq!(hero_state(&g), HERO_STATE_NORMAL);
}

#[test]
fn crouch_then_stand_up() {
    let mut g = Game::new(Size::new(100, 30));
    g.process_key(KEY_CROUCH, false);
    assert_eq!(hero_state(&g), HERO_STATE_CROUCHING);
    g.process_key(KEY_JUMP, false);
    assert_eq!(hero_state(&g), HERO_STATE_NORMAL);
    assert_eq!(g.hero.jump_potential, 0);
}

#[test]
fn sword_defeats_enemy_in_reach() {
    let enemy = StaticEntity::hostile_defeatable(String::from("EE"), Color::red(), Position::new(8, 11), 1);
    let mut g = Game::with_scenery(Size::new(80, 30), room_size(), Position::new(4, 10), vec![enemy]);
    g.hero.jump_potential = 2;
    g.process_key(KEY_ATTACK, false);
    assert!(g.entities[g.sword_id].get_figure().visible);
    g.render();
    assert!(!g.entities[0].get_figure().visible);
    assert!(!g.entities[g.sword_id].get_figure().visible);
}

#[test]
fn spell_console_edits_and_casts() {
    let mut g = Game::new(Size::new(100, 30));
    g.process_key('h', false);
    g.process_key('i', false);
    g.process_key(' ', false);
    g.process_key('5', false);
    g.process_key('!', false);
    assert_eq!(g.console.get_spell(), "hi ");
    assert_eq!(g.cursor_position, Position::new(3, 29));
    g.process_key(KEY_BACKSPACE, false);
    assert_eq!(g.console.get_spell(), "hi");
    g.process_key(KEY_ENTER, false);
    assert_eq!(g.console.get_len(), 0);
    assert_eq!(g.cursor_position, Position::new(0, 29));
}

#[test]
fn ctrl_q_stops() {
    let mut g = Game::new(Size::new(100, 30));
    g.process_key('q', true);
    assert!(g.stopped);
    assert_eq!(g.console.get_len(), 0);
}

#[test]
fn set_size_resizes_only_on_change() {
    let mut g = Game::new(Size::new(100, 30));
    g.render();
    let before = g.symbol_buffer.clone();
    g.set_size(Size::new(100, 30));
    assert_eq!(g.symbol_buffer, before);
    g.set_size(Size::new(40, 12));
    assert_eq!(g.symbol_buffer.len(), 12);
    assert_eq!(g.symbol_buffer[0].len(), 40);
    assert!(g.symbol_buffer.iter().all(|r| r.iter().all(|c| *c == ' ')));
    assert_eq!(g.cursor_position, Position::new(0, 11));
}

#[test]
fn render_drops_sprite_left_of_view() {
    let hidden = StaticEntity::new(String::from("abc\nabc"), Color::blue(), Position::new(-10, 2));
    let mut g = Game::with_scenery(Size::new(20, 10), room_size(), Position::new(2, 0), vec![hidden]);
    g.render();
    for y in 0..10 {
        assert!(!row(&g, y).contains('a'));
        assert!(!row(&g, y).contains('b'));
    }
}

#[test]
fn render_truncates_at_right_edge() {
    let sign = StaticEntity::new(String::from("abcdefgh"), Color::green(), Position::new(16, 5));
    let mut g = Game::with_scenery(Size::new(20, 10), room_size(), Position::new(2, 0), vec![sign]);
    g.render();
    assert_eq!(row(&g, 5), "                abcd");
    assert_eq!(row(&g, 6), " ".repeat(20));
    assert_eq!(g.color_buffer[5][17], Color::green());
    assert_eq!(g.color_buffer[5][15], Color::white());
}

#[test]
fn render_draws_hero_and_later_entities_on_top() {
    let under = StaticEntity::new(String::from("xxxxx"), Color::blue(), Position::new(0, 3));
    let over = StaticEntity::new(String::from(" y"), Color::red(), Position::new(0, 3));
    let mut g = Game::with_scenery(Size::new(10, 8), room_size(), Position::new(4, 0), vec![under, over]);
    g.hero.jump_potential = 1;
    g.render();
    assert_eq!(row(&g, 3), "xyxxx     ");
    assert_eq!(g.color_buffer[3][1], Color::red());
    assert_eq!(g.color_buffer[3][0], Color::blue());
    // The room's top edge stops the jump at once.
    assert_eq!(hero_pos(&g), Position::new(4, 0));
    assert_eq!(g.hero.jump_potential, 0);
    assert_eq!(row(&g, 0), "     0    ");
}

#[test]
fn controllers_build_ready_entities() {
    let c = HeroController::new();
    assert!(c.direction_right);
    assert_eq!(c.health, 10);
    let hero = c.new_entity();
    assert_eq!(hero.get_state(), HERO_STATE_NORMAL);
    assert_eq!(hero.get_size(), Size::new(3, 3));
    let sword = SwordController::new_entity();
    assert!(!sword.get_figure().visible);
    assert_eq!(sword.get_figure().sprites.len(), 5);
}

#[test]
fn spell_console_alone() {
    let mut c = SpellConsole::new();
    c.backspace();
    assert_eq!(c.get_len(), 0);
    c.add_char('a');
    c.add_char('b');
    assert_eq!(c.get_spell(), "ab");
    assert_eq!(c.finish_spell(), "ab");
    assert_eq!(c.get_spell(), "");
}

#[test]
fn spell_length_counts_utf8_bytes() {
    let mut c = SpellConsole::new();
    c.add_char('a');
    assert_eq!(c.get_len(), 1);
    c.add_char('\u{e9}');
    assert_eq!(c.get_len(), 3);
    c.add_char('\u{25b2}');
    assert_eq!(c.get_len(), 6);
    c.add_char('\u{1f600}');
    assert_eq!(c.get_len(), 10);
    assert_eq!(c.char_count(), 4);
    c.backspace();
    assert_eq!(c.get_len(), 6);
}

#[test]
fn hero_art_has_the_declared_sizes() {
    let full = Size::new(HERO_WIDTH, HERO_HEIGHT);
    assert_eq!(Sprite::get_content_size(HERO), full);
    assert_eq!(Sprite::get_content_size(HERO_CROUCHING_1), full);
    assert_eq!(Sprite::get_content_size(HERO_JUMPING_LEFT), full);
    assert_eq!(Sprite::get_content_size(HERO_JUMPING_RIGHT), full);
    assert_eq!(Sprite::get_content_size(HERO_FALL), full);
    assert_eq!(
        Sprite::get_content_size(HERO_CROUCHING_2),
        Size::new(HERO_WIDTH, HERO_CROUCHED_HEIGHT)
    );
}

#[test]
fn crouch_settles_on_second_frame() {
    let mut hero = HeroController::new().new_entity();
    assert_eq!(hero.get_damage(), 0);
    hero.set_state(HERO_STATE_CROUCHING);
    let active = |e: &Entity| -> Vec<usize> {
        e.get_figure().sprites.iter().enumerate().filter(|(_, s)| s.active).map(|(i, _)| i).collect()
    };
    assert_eq!(active(&hero), vec![1]);
    for _ in 0..4 {
        hero.animate();
        assert_eq!(active(&hero), vec![1]);
    }
    for _ in 0..5 {
        hero.animate();
        assert_eq!(active(&hero), vec![2]);
    }
    assert_eq!(hero.get_state(), HERO_STATE_CROUCHING);
    assert_eq!(hero.get_size(), Size::new(3, 2));
    assert_eq!(hero.get_figure().sprites[2].offset, Position::new(0, 1));
}

#[test]
fn sword_frames_are_yellow_three_by_three() {
    let sword = SwordController::new_entity();
    let fig = sword.get_figure();
    assert_eq!(fig.position, Position::new(0, 25));
    for (i, s) in fig.sprites.iter().enumerate() {
        assert_eq!(s.color, Color::yellow());
        assert_eq!(s.size, Size::new(3, 3));
        assert_eq!(s.active, i == 0);
    }
}
