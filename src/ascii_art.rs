//! Fixed art and world geometry.
use vstd::prelude::*;

verus! {

/// Rows of the world; the floor lies on the last one.
pub const WORLD_HEIGHT: i32 = 30;

pub const WORLD_MIN_WIDTH: i32 = 80;

/// Columns at the room's right end that the hero may not enter, and the
/// distance from the view's right edge at which the view scrolls.
pub const WORLD_RIGHT_MARGIN: i32 = 10;

/// Distance from the view's left edge at which the view scrolls back.
pub const WORLD_LEFT_MARGIN: i32 = 10;

/// Largest width or height a room may have: `i32::MAX` less the sword's
/// offset from the hero, so that the sword beside a hero anywhere in the room,
/// and the view's next column, still fit in an `i32`.
pub const WORLD_LIMIT: i32 = 2147483644;

pub const Y_BOTTOM: i32 = WORLD_HEIGHT - 2;

/// Rows a jump rises before gravity takes over.
pub const HERO_JUMPING_HEIGHT: i32 = 7;

pub const FLOOR_LENGTH: usize = 300;

pub const DEBUG: &'static str = "?";

/// Width of the hero's art.
pub const HERO_WIDTH: i32 = 3;

/// Height of the hero's standing, jumping and falling art.
pub const HERO_HEIGHT: i32 = 3;

/// Height of the hero's art once crouched down.
pub const HERO_CROUCHED_HEIGHT: i32 = 2;

pub const HERO: &'static str = r" 0
/#\
/ \";

pub const HERO_CROUCHING_1: &'static str = r" o
/#\
| |";

pub const HERO_CROUCHING_2: &'static str = r"/o\
/#\";

pub const HERO_JUMPING_RIGHT: &'static str = r" 0
/#‾
/ \";

pub const HERO_JUMPING_LEFT: &'static str = r" 0
‾#\
/ \";

pub const HERO_FALL: &'static str = r"\0/
 #
/ \";

pub const TUTORIAL: &'static str = "\
*-*-*-*-*-*-*-*-*-*-*-*-*-*-*-*-*-*-*-*-*-*
| Quit: Ctrl + Q                          |
* Move left: LEFT ARROW or [              *
| Move right: RIGHT ARROW or ]            |
* Crouch: DOWN ARROW or .                 *
| Jump or Stop crouching: TOP ARROW or /  |
* Strike with the sword: ,                *
| Cast a spell: any letters + ENTER       |
*-*-*-*-*-*-*-*-*-*-*-*-*-*-*-*-*-*-*-*-*-*
";

pub const SWORD_1: &'static str = "

▛";

pub const SWORD_2: &'static str = "
■■
 ▔";

pub const SWORD_3: &'static str = "
■■■";

pub const SWORD_4: &'static str = "\
 ▁
■■";

pub const SWORD_5: &'static str = "\
▙";

pub const SPIKE_UP: &'static str = "▲";

pub const SPIKE_DOWN: &'static str = "▼";

pub const ENEMY: &'static str = "\
◢█ █◣
◥█ █◤";

pub const GO_RIGHT_SIGN: &'static str = "\
Go, hero, go! ->";

} // verus!
