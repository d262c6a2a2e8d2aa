//! The game: an arena of entities, rooms that list them, the hero's physics,
//! input handling and rasterization into a character grid.
use vstd::prelude::*;
use crate::atoms::{
    figures_overlap, overlap_spec, Color, EntityID, Figure, Position, Room, RoomID, Size, StateID,
};
use crate::entities::{Entity, StaticEntity};
use crate::game_objects::{
    hero_ready, is_hero_state, lemma_hero_ready_kept, lemma_hero_ready_refigured,
    lemma_sword_ready_kept, lemma_sword_ready_refigured, sword_ready, HeroController, SpellConsole,
    SwordController, HERO_STATE_CROUCHING, HERO_STATE_FALLING, HERO_STATE_JUMPING_LEFT,
    HERO_STATE_JUMPING_RIGHT, HERO_STATE_NORMAL,
};
use crate::ascii_art::{
    DEBUG, ENEMY, FLOOR_LENGTH, GO_RIGHT_SIGN, HERO_JUMPING_HEIGHT, SPIKE_UP, TUTORIAL,
    WORLD_HEIGHT, WORLD_LEFT_MARGIN, WORLD_LIMIT, WORLD_MIN_WIDTH, WORLD_RIGHT_MARGIN,
};
use crate::render::{
    blank_canvas, canvas_shaped, draw_entities, draw_entities_into, grid_view, has_shape, Canvas,
};
use crate::special_key_codes::{
    KEY_ATTACK, KEY_BACKSPACE, KEY_CROUCH, KEY_ENTER, KEY_JUMP, KEY_LEFT, KEY_RIGHT,
};

verus! {

pub struct Game {
    /// Size of the view, and of both output grids.
    pub size: Size,
    /// Set when the player asks to quit.
    pub stopped: bool,
    /// Where the text caret goes: just after the spell being typed.
    pub cursor_position: Position,
    pub rooms: Vec<Room>,
    pub current_room: RoomID,
    /// The arena: every entity of the game, indexed by its ID.
    pub entities: Vec<Entity>,
    /// Rows of characters, `size.height` by `size.width`.
    pub symbol_buffer: Vec<Vec<char>>,
    /// Color of each character of `symbol_buffer`.
    pub color_buffer: Vec<Vec<Color>>,
    /// Top-left corner of the view in room coordinates.
    pub view_position: Position,
    pub console: SpellConsole,
    pub console_id: EntityID,
    pub hero_id: EntityID,
    pub sword_id: EntityID,
    pub hero: HeroController,
}

/// Column of the sword relative to the hero.
pub const SWORD_OFFSET_X: i32 = 3;

/// Contact damage of the spikes and the enemy.
pub const HAZARD_DAMAGE: i32 = 1;

impl Game {
    pub open spec fn room(&self) -> Room {
        self.rooms@[self.current_room as int]
    }

    pub open spec fn entity(&self, id: EntityID) -> Entity {
        self.entities@[id as int]
    }

    pub open spec fn hero_entity(&self) -> Entity {
        self.entity(self.hero_id)
    }

    pub open spec fn hero_position(&self) -> Position {
        self.hero_entity().figure().position
    }

    pub open spec fn sword_figure(&self) -> Figure {
        self.entity(self.sword_id).figure()
    }

    pub open spec fn console_figure(&self) -> Figure {
        self.entity(self.console_id).figure()
    }

    pub open spec fn canvas(&self) -> Canvas {
        (grid_view(self.symbol_buffer@), grid_view(self.color_buffer@))
    }

    /// The sword's place beside a hero standing at `p`.
    pub open spec fn sword_spot(p: Position) -> Position {
        Position { x: (p.x + SWORD_OFFSET_X) as i32, y: p.y }
    }

    /// The invariant of a running game.
    pub open spec fn wf(&self) -> bool {
        &&& 0 <= self.size.width && 0 <= self.size.height
        &&& has_shape(self.canvas().0, self.size.width as int, self.size.height as int)
        &&& has_shape(self.canvas().1, self.size.width as int, self.size.height as int)
        &&& self.current_room < self.rooms@.len()
        &&& 0 <= self.room().size.width <= WORLD_LIMIT
        &&& 0 <= self.room().size.height <= WORLD_LIMIT
        &&& forall|k: int|
            0 <= k < self.room().entities@.len() ==> #[trigger] self.room().entities@[k]
                < self.entities@.len()
        &&& self.hero_id < self.entities@.len()
        &&& self.sword_id < self.entities@.len()
        &&& self.console_id < self.entities@.len()
        &&& self.hero_id != self.sword_id
        &&& self.hero_id != self.console_id
        &&& self.sword_id != self.console_id
        &&& hero_ready(self.hero_entity())
        &&& sword_ready(self.entity(self.sword_id))
        &&& self.entity(self.console_id) is Static
        &&& self.entity(self.console_id).damage() == 0
        &&& !self.entity(self.console_id).defeatable()
        &&& self.console_figure().sprites@.len() == 1
        &&& forall|i: int| 0 <= i < self.entities@.len() ==> (#[trigger] self.entities@[i]).can_animate(None)
        &&& 0 <= self.hero_position().x <= self.room().size.width
        &&& 0 <= self.hero_position().y <= self.room().size.height
        &&& self.sword_figure().position == Self::sword_spot(self.hero_position())
        &&& 0 <= self.view_position.x <= self.room().size.width
        &&& self.view_position.y == 0
        &&& 0 <= self.hero.jump_potential <= HERO_JUMPING_HEIGHT
    }

    /// The console shows the spell on the view's last row, and the caret
    /// stands just after it.
    pub open spec fn console_shown(&self) -> bool {
        &&& self.console_figure().sprites@[0].content@ == self.console@
        &&& self.console_figure().position == (Position {
            x: self.view_position.x,
            y: (self.size.height - 1) as i32,
        })
        &&& self.cursor_position == (Position {
            x: self.console@.len() as i32,
            y: (self.size.height - 1) as i32,
        })
    }

    /// `new` differs from `old` at most in the figure of entity `id`.
    pub open spec fn only_figure_changed(old: Game, new: Game, id: EntityID, f: Figure) -> bool {
        &&& new.entities@ == old.entities@.update(id as int, old.entity(id).with_figure(f))
        &&& new.size == old.size
        &&& new.stopped == old.stopped
        &&& new.cursor_position == old.cursor_position
        &&& new.rooms == old.rooms
        &&& new.current_room == old.current_room
        &&& new.symbol_buffer == old.symbol_buffer
        &&& new.color_buffer == old.color_buffer
        &&& new.view_position == old.view_position
        &&& new.console == old.console
        &&& new.console_id == old.console_id
        &&& new.hero_id == old.hero_id
        &&& new.sword_id == old.sword_id
        &&& new.hero == old.hero
    }

    /// `e` with its figure moved to `p`.
    pub open spec fn moved(e: Entity, p: Position) -> Entity {
        e.with_figure(Figure { position: p, ..e.figure() })
    }

    /// `e` with its figure shown or hidden.
    pub open spec fn shown(e: Entity, visible: bool) -> Entity {
        e.with_figure(Figure { visible, ..e.figure() })
    }

    fn set_position(&mut self, id: EntityID, p: Position)
        requires
            id < old(self).entities@.len(),
        ensures
            Self::only_figure_changed(
                *old(self),
                *final(self),
                id,
                Figure { position: p, ..old(self).entity(id).figure() },
            ),
    {
        self.entities[id].get_figure_mut().position = p;
    }

    fn set_visible(&mut self, id: EntityID, visible: bool)
        requires
            id < old(self).entities@.len(),
        ensures
            Self::only_figure_changed(
                *old(self),
                *final(self),
                id,
                Figure { visible, ..old(self).entity(id).figure() },
            ),
    {
        self.entities[id].get_figure_mut().visible = visible;
    }
}

impl Game {
    /// Replacing entities by ones that can still animate, with the room and
    /// its list untouched, keeps the arena's part of the invariant.
    pub proof fn lemma_arena_kept(old: Game, new: Game)
        requires
            old.wf(),
            new.rooms == old.rooms,
            new.current_room == old.current_room,
            new.entities@.len() == old.entities@.len(),
            forall|i: int|
                0 <= i < new.entities@.len() ==> #[trigger] new.entities@[i] == old.entities@[i]
                    || new.entities@[i].can_animate(None),
        ensures
            forall|i: int|
                0 <= i < new.entities@.len() ==> (#[trigger] new.entities@[i]).can_animate(None),
            forall|k: int|
                0 <= k < new.room().entities@.len() ==> #[trigger] new.room().entities@[k]
                    < new.entities@.len(),
    {
        assert forall|i: int| 0 <= i < new.entities@.len() implies (
        #[trigger] new.entities@[i]).can_animate(None) by {
            assert(old.entities@[i].can_animate(None));
        }
        assert forall|k: int| 0 <= k < new.room().entities@.len() implies #[trigger] new.room().entities@[k]
            < new.entities@.len() by {
            assert(old.room().entities@[k] < old.entities@.len());
        }
    }

    /// Size, rooms and entity IDs are as in `old`, and no entity was added.
    pub open spec fn same_world(old: Game, new: Game) -> bool {
        &&& new.size == old.size
        &&& new.rooms == old.rooms
        &&& new.current_room == old.current_room
        &&& new.console_id == old.console_id
        &&& new.hero_id == old.hero_id
        &&& new.sword_id == old.sword_id
        &&& new.entities@.len() == old.entities@.len()
    }

    /// Shows the spell in the console entity on the view's last row and
    /// puts the caret after it.
    fn manage_console(&mut self)
        requires
            old(self).wf(),
        ensures
            final(self).wf(),
            final(self).console_shown(),
            Self::same_world(*old(self), *final(self)),
            forall|i: int|
                0 <= i < final(self).entities@.len() && i != final(self).console_id
                    ==> #[trigger] final(self).entities@[i] == old(self).entities@[i],
            final(self).symbol_buffer == old(self).symbol_buffer,
            final(self).color_buffer == old(self).color_buffer,
            final(self).stopped == old(self).stopped,
            final(self).view_position == old(self).view_position,
            final(self).console == old(self).console,
            final(self).hero == old(self).hero,
    {
        let content = self.console.get_spell_chars();
        let len = self.console.char_count();
        let pos = Position::new(self.view_position.x, self.size.height - 1);
        let ghost before = *self;
        let fig = self.entities[self.console_id].get_figure_mut();
        fig.sprites[0].content = content;
        fig.position = pos;
        #[verifier::truncate]
        let x = len as i32;
        self.cursor_position = Position::new(x, self.size.height - 1);
        proof {
            Self::lemma_arena_kept(before, *self);
        }
    }

    /// Replaces both grids with blank ones of `size`.
    fn resize_buffers(&mut self, size: Size)
        requires
            size.width >= 0,
            size.height >= 0,
        ensures
            final(self).canvas() == blank_canvas(size.width as int, size.height as int),
            final(self).size == old(self).size,
            final(self).stopped == old(self).stopped,
            final(self).cursor_position == old(self).cursor_position,
            final(self).rooms == old(self).rooms,
            final(self).current_room == old(self).current_room,
            final(self).entities == old(self).entities,
            final(self).view_position == old(self).view_position,
            final(self).console == old(self).console,
            final(self).console_id == old(self).console_id,
            final(self).hero_id == old(self).hero_id,
            final(self).sword_id == old(self).sword_id,
            final(self).hero == old(self).hero,
    {
        self.symbol_buffer = filled_grid(size.width as usize, size.height as usize, ' ');
        self.color_buffer = filled_grid(size.width as usize, size.height as usize, Color::white());
    }

    /// Adapts the game to a view of `size`; the grids are rebuilt, blank,
    /// only when the size changes.
    pub fn set_size(&mut self, size: Size)
        requires
            old(self).wf(),
            size.width >= 0,
            size.height >= 0,
        ensures
            final(self).wf(),
            final(self).size == size,
            final(self).console_shown(),
            old(self).size == size ==> final(self).symbol_buffer == old(self).symbol_buffer
                && final(self).color_buffer == old(self).color_buffer,
            old(self).size != size ==> final(self).canvas() == blank_canvas(
                size.width as int,
                size.height as int,
            ),
            final(self).rooms == old(self).rooms,
            final(self).current_room == old(self).current_room,
            final(self).console_id == old(self).console_id,
            final(self).hero_id == old(self).hero_id,
            final(self).sword_id == old(self).sword_id,
            final(self).entities@.len() == old(self).entities@.len(),
            forall|i: int|
                0 <= i < final(self).entities@.len() && i != final(self).console_id
                    ==> #[trigger] final(self).entities@[i] == old(self).entities@[i],
            final(self).stopped == old(self).stopped,
            final(self).view_position == old(self).view_position,
            final(self).console == old(self).console,
            final(self).hero == old(self).hero,
    {
        if !(self.size == size) {
            self.resize_buffers(size);
        }
        self.size = size;
        self.manage_console();
    }

    /// Appends `ent` to the arena and returns its ID.
    fn new_entity(entities: &mut Vec<Entity>, ent: Entity) -> (id: EntityID)
        ensures
            id == old(entities)@.len(),
            final(entities)@ == old(entities)@.push(ent),
    {
        entities.push(ent);
        entities.len() - 1
    }

    /// A game in a single room of `room_size`: `scenery` in the given order,
    /// then the console, the hero standing at `hero_start` and its sword.
    pub fn with_scenery(
        size: Size,
        room_size: Size,
        hero_start: Position,
        scenery: Vec<StaticEntity>,
    ) -> (g: Game)
        requires
            size.width >= 0,
            size.height >= 0,
            0 <= room_size.width <= WORLD_LIMIT,
            0 <= room_size.height <= WORLD_LIMIT,
            0 <= hero_start.x <= room_size.width,
            0 <= hero_start.y <= room_size.height,
        ensures
            g.wf(),
            g.console_shown(),
            g.size == size,
            !g.stopped,
            g.rooms@.len() == 1,
            g.current_room == 0,
            g.room().size == room_size,
            g.room().entities@ == Seq::new(scenery@.len() + 3, |i: int| i as EntityID),
            g.entities@.len() == scenery@.len() + 3,
            forall|i: int| 0 <= i < scenery@.len() ==> #[trigger] g.entities@[i] == Entity::Static(scenery@[i]),
            g.console_id == scenery@.len(),
            g.hero_id == scenery@.len() + 1,
            g.sword_id == scenery@.len() + 2,
            g.hero_position() == hero_start,
            g.hero_entity().state() == HERO_STATE_NORMAL,
            g.hero_entity().figure().visible,
            !g.sword_figure().visible,
            g.view_position == (Position { x: 0, y: 0 }),
            g.hero.jump_potential == 0,
            g.hero.direction_right,
            g.console@ == Seq::<char>::empty(),
            g.canvas() == blank_canvas(size.width as int, size.height as int),
    {
        let n = scenery.len();
        let mut rest = scenery;
        let mut entities: Vec<Entity> = Vec::new();
        let mut room = Room::new(room_size);
        let ghost all = rest@;
        while rest.len() > 0
            invariant
                entities@.len() + rest@.len() == all.len(),
                n == all.len(),
                rest@ == all.subrange(entities@.len() as int, all.len() as int),
                forall|i: int| 0 <= i < entities@.len() ==> #[trigger] entities@[i] == Entity::Static(all[i]),
                room.size == room_size,
                room.entities@ == Seq::new(entities@.len(), |i: int| i as EntityID),
            decreases rest@.len(),
        {
            let e = rest.remove(0);
            let id = Self::new_entity(&mut entities, Entity::Static(e));
            room.entities.push(id);
            assert(room.entities@ =~= Seq::new(entities@.len(), |i: int| i as EntityID));
            assert(rest@ =~= all.subrange(entities@.len() as int, all.len() as int));
        }
        let console_id = Self::new_entity(
            &mut entities,
            Entity::Static(StaticEntity::new(String::new(), Color::white(), Position::origin())),
        );
        let controller = HeroController::new();
        let mut hero_ent = controller.new_entity();
        let ghost fresh_hero = hero_ent;
        hero_ent.get_figure_mut().position = hero_start;
        proof {
            lemma_hero_ready_refigured(fresh_hero, Figure { position: hero_start, ..fresh_hero.figure() });
        }
        let hero_id = Self::new_entity(&mut entities, hero_ent);
        let mut sword_ent = SwordController::new_entity();
        let ghost fresh_sword = sword_ent;
        sword_ent.get_figure_mut().position = Position::new(hero_start.x + SWORD_OFFSET_X, hero_start.y);
        proof {
            lemma_sword_ready_refigured(
                fresh_sword,
                Figure { position: Self::sword_spot(hero_start), ..fresh_sword.figure() },
            );
        }
        let sword_id = Self::new_entity(&mut entities, sword_ent);
        room.entities.push(console_id);
        room.entities.push(hero_id);
        room.entities.push(sword_id);
        assert(room.entities@ =~= Seq::new(n as nat + 3, |i: int| i as EntityID));
        let mut rooms: Vec<Room> = Vec::new();
        rooms.push(room);
        let mut g = Game {
            size,
            stopped: false,
            cursor_position: Position::origin(),
            rooms,
            current_room: 0,
            entities,
            symbol_buffer: filled_grid(size.width as usize, size.height as usize, ' '),
            color_buffer: filled_grid(size.width as usize, size.height as usize, Color::white()),
            view_position: Position::origin(),
            console: SpellConsole::new(),
            console_id,
            hero_id,
            sword_id,
            hero: controller,
        };
        proof {
            assert forall|i: int| 0 <= i < g.entities@.len() implies (
            #[trigger] g.entities@[i]).can_animate(None) by {
                if i < n {
                    assert(g.entities@[i] == Entity::Static(all[i]));
                }
            }
            assert(has_shape(g.canvas().0, size.width as int, size.height as int));
            assert(has_shape(g.canvas().1, size.width as int, size.height as int));
        }
        g.manage_console();
        g
    }
}

impl Game {
    /// The game's fixed level in a view of `size`: the hero starts at the
    /// origin of a room twice the minimal world width, over a floor with a
    /// spike and an enemy.
    pub fn new(size: Size) -> (g: Game)
        requires
            size.width >= 0,
            size.height >= 0,
        ensures
            g.wf(),
            g.console_shown(),
            g.size == size,
            !g.stopped,
            g.room().size == (Size { width: (WORLD_MIN_WIDTH * 2) as i32, height: WORLD_HEIGHT }),
            g.hero_position() == (Position { x: 0, y: 0 }),
            g.hero_entity().state() == HERO_STATE_NORMAL,
            g.view_position == (Position { x: 0, y: 0 }),
            g.hero.jump_potential == 0,
            g.console@ == Seq::<char>::empty(),
            g.canvas() == blank_canvas(size.width as int, size.height as int),
            g.entities@.len() == 9,
            g.room().entities@ == Seq::new(9, |i: int| i as EntityID),
            g.hero_id == 7,
            g.sword_id == 8,
            g.console_id == 6,
            g.entity(4).damage() > 0,
            g.entity(5).damage() > 0 && g.entity(5).defeatable(),
            !g.sword_figure().visible,
            g.rooms@.len() == 1,
            g.current_room == 0,
    {
        let scenery = Self::construct_entities();
        Self::with_scenery(
            size,
            Size::new(WORLD_MIN_WIDTH * 2, WORLD_HEIGHT),
            Position::origin(),
            scenery,
        )
    }

    /// The fixed scenery, in drawing order: a marker past the room's end,
    /// the key guide, the floor, a sign, a spike and an enemy.
    fn construct_entities() -> (v: Vec<StaticEntity>)
        ensures
            v@.len() == 6,
            v@[2].is_single_sprite(
                Seq::new(FLOOR_LENGTH as nat, |i: int| '-'),
                Color::white_spec(),
                Position { x: 0, y: (WORLD_HEIGHT - 1) as i32 },
            ),
            v@[4].damage > 0,
            v@[5].damage > 0 && v@[5].defeatable,
    {
        let mut v: Vec<StaticEntity> = Vec::new();
        v.push(
            StaticEntity::new(
                String::from_str(DEBUG),
                Color::cyan(),
                Position::new(WORLD_MIN_WIDTH * 2, WORLD_HEIGHT - 2),
            ),
        );
        v.push(
            StaticEntity::new(
                String::from_str(TUTORIAL),
                Color::new(200, 70, 0),
                Position::new(10, 3),
            ),
        );
        let mut floor: Vec<char> = Vec::new();
        let mut i: usize = 0;
        while i < FLOOR_LENGTH
            invariant
                i <= FLOOR_LENGTH,
                floor@ == Seq::new(i as nat, |k: int| '-'),
            decreases FLOOR_LENGTH - i,
        {
            floor.push('-');
            i += 1;
            assert(floor@ =~= Seq::new(i as nat, |k: int| '-'));
        }
        v.push(
            StaticEntity::from_chars(
                floor,
                Color::white(),
                Position::new(0, WORLD_HEIGHT - 1),
                0,
                false,
            ),
        );
        v.push(
            StaticEntity::new(
                String::from_str(GO_RIGHT_SIGN),
                Color::green(),
                Position::new(20, WORLD_HEIGHT - 8),
            ),
        );
        v.push(
            StaticEntity::hostile(
                String::from_str(SPIKE_UP),
                Color::red(),
                Position::new(50, WORLD_HEIGHT - 2),
                HAZARD_DAMAGE,
            ),
        );
        v.push(
            StaticEntity::hostile_defeatable(
                String::from_str(ENEMY),
                Color::red(),
                Position::new(100, WORLD_HEIGHT - 4),
                HAZARD_DAMAGE,
            ),
        );
        v
    }
}

impl Game {
    /// Only the arena's entities differ from `old` (none added or removed).
    pub open spec fn only_entities_changed(old: Game, new: Game) -> bool {
        &&& Self::same_world(old, new)
        &&& new.stopped == old.stopped
        &&& new.cursor_position == old.cursor_position
        &&& new.symbol_buffer == old.symbol_buffer
        &&& new.color_buffer == old.color_buffer
        &&& new.view_position == old.view_position
        &&& new.console == old.console
        &&& new.hero == old.hero
    }

    /// Whether entity `id` can block or hurt the hero: anything but the
    /// hero, its sword and the console.
    pub open spec fn is_obstacle(&self, id: int) -> bool {
        id != self.hero_id && id != self.sword_id && id != self.console_id
    }

    /// Whether the `k`-th entity of the room is an obstacle that `fig`
    /// overlaps, and is a hazard (damage above zero) exactly when `hazard`.
    pub open spec fn touches(&self, fig: Figure, k: int, hazard: bool) -> bool {
        let id = self.room().entities@[k];
        &&& 0 <= k < self.room().entities@.len()
        &&& self.is_obstacle(id as int)
        &&& overlap_spec(fig, self.entity(id).figure())
        &&& (self.entity(id).damage() > 0) == hazard
    }

    pub open spec fn hazard_hit(&self, fig: Figure) -> bool {
        exists|k: int| #[trigger] self.touches(fig, k, true)
    }

    pub open spec fn solid_hit(&self, fig: Figure) -> bool {
        exists|k: int| #[trigger] self.touches(fig, k, false)
    }

    /// The hero's figure moved to `p`.
    pub open spec fn hero_at(&self, p: Position) -> Figure {
        Figure { position: p, ..self.hero_entity().figure() }
    }

    pub open spec fn hero_size(&self) -> Size {
        self.hero_entity().size()
    }

    /// The same room, IDs and obstacles.
    pub open spec fn same_obstacles(old: Game, new: Game) -> bool {
        &&& new.rooms == old.rooms
        &&& new.current_room == old.current_room
        &&& new.console_id == old.console_id
        &&& new.hero_id == old.hero_id
        &&& new.sword_id == old.sword_id
        &&& new.entities@.len() == old.entities@.len()
        &&& forall|i: int|
            0 <= i < new.entities@.len() && old.is_obstacle(i)
                ==> #[trigger] new.entities@[i] == old.entities@[i]
    }

    pub proof fn lemma_same_obstacles_touch(old: Game, new: Game, fig: Figure)
        requires
            old.wf(),
            Self::same_obstacles(old, new),
        ensures
            new.hazard_hit(fig) == old.hazard_hit(fig),
            new.solid_hit(fig) == old.solid_hit(fig),
    {
        assert forall|k: int, h: bool| #[trigger] new.touches(fig, k, h) == old.touches(fig, k, h) by {
            if 0 <= k < old.room().entities@.len() {
                let id = old.room().entities@[k];
                assert(id < old.entities@.len());
                if old.is_obstacle(id as int) {
                    assert(new.entities@[id as int] == old.entities@[id as int]);
                }
            }
        }
        if new.hazard_hit(fig) {
            let k = choose|k: int| #[trigger] new.touches(fig, k, true);
            assert(old.touches(fig, k, true));
        }
        if old.hazard_hit(fig) {
            let k = choose|k: int| #[trigger] old.touches(fig, k, true);
            assert(new.touches(fig, k, true));
        }
        if new.solid_hit(fig) {
            let k = choose|k: int| #[trigger] new.touches(fig, k, false);
            assert(old.touches(fig, k, false));
        }
        if old.solid_hit(fig) {
            let k = choose|k: int| #[trigger] old.touches(fig, k, false);
            assert(new.touches(fig, k, false));
        }
    }

    /// Scans the room for obstacles that `fig` overlaps: whether a hazard is
    /// among them, and whether a harmless one is.
    fn contacts(&self, fig: &Figure) -> (r: (bool, bool))
        requires
            self.wf(),
        ensures
            r.0 == self.hazard_hit(*fig),
            r.1 == self.solid_hit(*fig),
    {
        let ids = &self.rooms[self.current_room].entities;
        let mut hazard = false;
        let mut solid = false;
        let mut k: usize = 0;
        while k < ids.len()
            invariant
                self.wf(),
                ids@ == self.room().entities@,
                k <= ids@.len(),
                hazard == exists|j: int| 0 <= j < k && #[trigger] self.touches(*fig, j, true),
                solid == exists|j: int| 0 <= j < k && #[trigger] self.touches(*fig, j, false),
            decreases ids@.len() - k,
        {
            let id = ids[k];
            if id != self.hero_id && id != self.sword_id && id != self.console_id {
                let other = &self.entities[id];
                if figures_overlap(fig, other.get_figure()) {
                    if other.get_damage() > 0 {
                        hazard = true;
                        assert(self.touches(*fig, k as int, true));
                    } else {
                        solid = true;
                        assert(self.touches(*fig, k as int, false));
                    }
                }
            }
            k += 1;
        }
        (hazard, solid)
    }

    /// Moves the hero to `p` and its sword beside it.
    fn place_hero(&mut self, p: Position)
        requires
            old(self).wf(),
            0 <= p.x <= old(self).room().size.width,
            0 <= p.y <= old(self).room().size.height,
        ensures
            final(self).wf(),
            Self::only_entities_changed(*old(self), *final(self)),
            final(self).entities@ == old(self).entities@.update(
                old(self).hero_id as int,
                Self::moved(old(self).hero_entity(), p),
            ).update(
                old(self).sword_id as int,
                Self::moved(old(self).entity(old(self).sword_id), Self::sword_spot(p)),
            ),
            Self::same_obstacles(*old(self), *final(self)),
            final(self).hero_position() == p,
            final(self).hero_entity().state() == old(self).hero_entity().state(),
            final(self).hero_size() == old(self).hero_size(),
            final(self).sword_figure().visible == old(self).sword_figure().visible,
    {
        let ghost before = *self;
        self.set_position(self.hero_id, p);
        self.set_position(self.sword_id, Position::new(p.x + SWORD_OFFSET_X, p.y));
        proof {
            lemma_hero_ready_refigured(
                before.hero_entity(),
                Figure { position: p, ..before.hero_entity().figure() },
            );
            lemma_sword_ready_refigured(
                before.entity(before.sword_id),
                Figure { position: Self::sword_spot(p), ..before.sword_figure() },
            );
            Self::lemma_arena_kept(before, *self);
        }
    }

    /// Death: the hero goes back to the room's origin, its jump ends and the
    /// view returns to the origin.
    fn respawn(&mut self)
        requires
            old(self).wf(),
        ensures
            final(self).wf(),
            final(self).entities@ == old(self).entities@.update(
                old(self).hero_id as int,
                Self::moved(old(self).hero_entity(), Position { x: 0, y: 0 }),
            ).update(
                old(self).sword_id as int,
                Self::moved(old(self).entity(old(self).sword_id), Position { x: SWORD_OFFSET_X, y: 0 }),
            ),
            Self::same_world(*old(self), *final(self)),
            Self::same_obstacles(*old(self), *final(self)),
            final(self).hero_position() == (Position { x: 0, y: 0 }),
            final(self).hero_entity().state() == old(self).hero_entity().state(),
            final(self).sword_figure().visible == old(self).sword_figure().visible,
            final(self).view_position == (Position { x: 0, y: 0 }),
            final(self).hero.jump_potential == 0,
            final(self).hero.direction_right == old(self).hero.direction_right,
            final(self).hero.health == old(self).hero.health,
            final(self).stopped == old(self).stopped,
            final(self).cursor_position == old(self).cursor_position,
            final(self).symbol_buffer == old(self).symbol_buffer,
            final(self).color_buffer == old(self).color_buffer,
            final(self).console == old(self).console,
    {
        self.place_hero(Position::origin());
        self.hero.jump_potential = 0;
        self.view_position = Position::origin();
    }
}

impl Game {
    /// Whether the hero may step `delta` columns: it stays right of the
    /// room's left edge and out of the margin at its right end.
    pub open spec fn step_allowed(&self, delta: int) -> bool {
        let p = self.hero_position();
        &&& p.x + delta >= 0
        &&& p.x + self.hero_size().width + delta < self.room().size.width - WORLD_RIGHT_MARGIN
    }

    pub open spec fn step_target(&self, delta: int) -> Position {
        Position { x: (self.hero_position().x + delta) as i32, y: self.hero_position().y }
    }

    /// Whether the step lands on a hazard.
    pub open spec fn step_kills(&self, delta: int) -> bool {
        self.step_allowed(delta) && self.hazard_hit(self.hero_at(self.step_target(delta)))
    }

    /// Where the hero stands after stepping `delta` columns: back at the
    /// origin when the step lands on a hazard, in place when the step is out
    /// of bounds or lands on anything else.
    pub open spec fn step_position(&self, delta: int) -> Position {
        let target = self.step_target(delta);
        if !self.step_allowed(delta) {
            self.hero_position()
        } else if self.hazard_hit(self.hero_at(target)) {
            Position { x: 0, y: 0 }
        } else if self.solid_hit(self.hero_at(target)) {
            self.hero_position()
        } else {
            target
        }
    }

    /// The view after a step of `delta`: one column right when the hero's
    /// right edge would come within the margin of the view's right edge
    /// (while the view's left edge is inside the room), one column left when
    /// its left edge would come within the margin of the view's left edge
    /// (while the view is not at the room's start).
    pub open spec fn scrolled_view(&self, delta: int) -> Position {
        let v = self.view_position;
        let rel = self.hero_position().x - v.x;
        if rel + delta + self.hero_size().width > self.size.width - WORLD_RIGHT_MARGIN && v.x
            < self.room().size.width {
            Position { x: (v.x + 1) as i32, y: v.y }
        } else if rel + delta < WORLD_LEFT_MARGIN && v.x > 0 {
            Position { x: (v.x - 1) as i32, y: v.y }
        } else {
            v
        }
    }

    /// Steps the hero `delta` columns, scrolling the view along.
    fn step_hero(&mut self, delta: i32)
        requires
            old(self).wf(),
            delta == 1 || delta == -1,
        ensures
            final(self).wf(),
            Self::only_entities_changed_but_view(*old(self), *final(self)),
            Self::same_obstacles(*old(self), *final(self)),
            final(self).hero_position() == old(self).step_position(delta as int),
            final(self).view_position == if old(self).step_kills(delta as int) {
                Position { x: 0, y: 0 }
            } else {
                old(self).scrolled_view(delta as int)
            },
            final(self).hero.jump_potential == if old(self).step_kills(delta as int) {
                0
            } else {
                old(self).hero.jump_potential
            },
            final(self).hero.direction_right == old(self).hero.direction_right,
            final(self).hero.health == old(self).hero.health,
            final(self).hero_entity().state() == old(self).hero_entity().state(),
            final(self).sword_figure().visible == old(self).sword_figure().visible,
            final(self).console == old(self).console,
    {
        let ghost g0 = *self;
        let pos = self.entities[self.hero_id].get_figure().position;
        let w = self.entities[self.hero_id].get_size().width;
        let view = self.view_position;
        let rel = pos.x as i64 - view.x as i64;
        let room_size = self.rooms[self.current_room].size;
        let right_edge: i64 = rel + (delta as i64) + (w as i64);
        let left_edge: i64 = rel + (delta as i64);
        let view_limit: i64 = (self.size.width as i64) - (WORLD_RIGHT_MARGIN as i64);
        if right_edge > view_limit && view.x < room_size.width {
            self.view_position = Position::new(view.x + 1, view.y);
        } else if left_edge < (WORLD_LEFT_MARGIN as i64) && view.x > 0 {
            self.view_position = Position::new(view.x - 1, view.y);
        }
        let ghost g1 = *self;
        assert(g1.wf());
        let new_x: i64 = (pos.x as i64) + (delta as i64);
        let room_limit: i64 = (room_size.width as i64) - (WORLD_RIGHT_MARGIN as i64);
        if new_x >= 0 && new_x + (w as i64) < room_limit {
            let target = Position::new(pos.x + delta, pos.y);
            self.place_hero(target);
            let ghost g2 = *self;
            assert(g2.hero_entity().figure() == g0.hero_at(target));
            let (hazard, solid) = self.contacts(self.entities[self.hero_id].get_figure());
            proof {
                Self::lemma_same_obstacles_touch(g0, g2, g0.hero_at(target));
            }
            if hazard {
                self.respawn();
            } else if solid {
                self.place_hero(pos);
            }
        }
    }

    /// Like `only_entities_changed`, but the view and the hero's controller
    /// may differ too.
    pub open spec fn only_entities_changed_but_view(old: Game, new: Game) -> bool {
        &&& Self::same_world(old, new)
        &&& new.stopped == old.stopped
        &&& new.cursor_position == old.cursor_position
        &&& new.symbol_buffer == old.symbol_buffer
        &&& new.color_buffer == old.color_buffer
        &&& new.console == old.console
    }
}

impl Game {
    /// Switches the hero to state `s`.
    fn set_hero_state(&mut self, s: StateID)
        requires
            old(self).wf(),
            is_hero_state(s),
        ensures
            final(self).wf(),
            Self::only_entities_changed(*old(self), *final(self)),
            Self::same_obstacles(*old(self), *final(self)),
            final(self).entities@ == old(self).entities@.update(
                old(self).hero_id as int,
                final(self).hero_entity(),
            ),
            Entity::animate_post(old(self).hero_entity(), final(self).hero_entity(), Some(s)),
            final(self).hero_entity().state() == s,
            final(self).hero_position() == old(self).hero_position(),
    {
        let ghost before = *self;
        assert(before.hero_entity()->Animatable_0.has_state(s));
        self.entities[self.hero_id].set_state(s);
        proof {
            lemma_hero_ready_kept(before.hero_entity(), self.hero_entity(), Some(s));
            Self::lemma_arena_kept(before, *self);
        }
    }

    /// Whether the hero is still rising from a jump.
    pub open spec fn rising(&self) -> bool {
        self.hero.jump_potential > 0
    }

    /// One row up while rising, one row down otherwise.
    pub open spec fn fall_target(&self) -> Position {
        let p = self.hero_position();
        Position { x: p.x, y: (p.y + if self.rising() { -1int } else { 1int }) as i32 }
    }

    /// Whether the hero, moved to the fall target, stays between the room's
    /// top and bottom edges.
    pub open spec fn fall_in_room(&self) -> bool {
        let t = self.fall_target();
        0 <= t.y && t.y + self.hero_size().height <= self.room().size.height
    }

    pub open spec fn fall_kills(&self) -> bool {
        self.fall_in_room() && self.hazard_hit(self.hero_at(self.fall_target()))
    }

    /// Whether the vertical move is refused: by the room's edges or by a
    /// harmless obstacle.
    pub open spec fn fall_blocked(&self) -> bool {
        !self.fall_in_room() || (!self.hazard_hit(self.hero_at(self.fall_target())) && self.solid_hit(
            self.hero_at(self.fall_target()),
        ))
    }

    pub open spec fn fall_position(&self) -> Position {
        if self.fall_kills() {
            Position { x: 0, y: 0 }
        } else if self.fall_blocked() {
            self.hero_position()
        } else {
            self.fall_target()
        }
    }

    /// Jump potential after the vertical move: one row of it is spent on a
    /// free rise; hitting anything, or dying, ends the jump.
    pub open spec fn fall_jump(&self) -> i32 {
        if self.fall_kills() || self.fall_blocked() || !self.rising() {
            0
        } else {
            (self.hero.jump_potential - 1) as i32
        }
    }

    /// Hero state after the vertical move: standing after bumping into
    /// something (a crouch survives landing), falling after a free drop,
    /// otherwise unchanged.
    pub open spec fn fall_state(&self) -> StateID {
        let s = self.hero_entity().state();
        if self.fall_kills() {
            s
        } else if self.fall_blocked() {
            if self.rising() || s != HERO_STATE_CROUCHING {
                HERO_STATE_NORMAL
            } else {
                s
            }
        } else if self.rising() {
            s
        } else {
            HERO_STATE_FALLING
        }
    }

    /// Gravity and jump integration for one tick.
    fn apply_physics(&mut self)
        requires
            old(self).wf(),
        ensures
            final(self).wf(),
            Self::only_entities_changed_but_view(*old(self), *final(self)),
            Self::same_obstacles(*old(self), *final(self)),
            final(self).hero_position() == old(self).fall_position(),
            final(self).hero.jump_potential == old(self).fall_jump(),
            final(self).hero_entity().state() == old(self).fall_state(),
            final(self).view_position == if old(self).fall_kills() {
                Position { x: 0, y: 0 }
            } else {
                old(self).view_position
            },
            final(self).hero.direction_right == old(self).hero.direction_right,
            final(self).sword_figure().visible == old(self).sword_figure().visible,
    {
        let ghost g0 = *self;
        let pos = self.entities[self.hero_id].get_figure().position;
        let h = self.entities[self.hero_id].get_size().height;
        let room_h = self.rooms[self.current_room].size.height;
        let rising = self.hero.jump_potential > 0;
        let ty: i64 = if rising {
            (pos.y as i64) - 1
        } else {
            (pos.y as i64) + 1
        };
        if rising {
            self.hero.jump_potential = self.hero.jump_potential - 1;
        }
        let mut blocked = true;
        if ty >= 0 && ty + (h as i64) <= (room_h as i64) {
            let target = Position::new(pos.x, ty as i32);
            assert(target == g0.fall_target());
            self.place_hero(target);
            let ghost g2 = *self;
            assert(g2.hero_entity().figure() == g0.hero_at(target));
            let (hazard, solid) = self.contacts(self.entities[self.hero_id].get_figure());
            proof {
                Self::lemma_same_obstacles_touch(g0, g2, g0.hero_at(target));
            }
            if hazard {
                self.respawn();
                return;
            }
            if solid {
                self.place_hero(pos);
            } else {
                blocked = false;
                if !rising {
                    self.set_hero_state(HERO_STATE_FALLING);
                }
            }
        }
        if blocked {
            if rising {
                self.hero.jump_potential = 0;
                self.set_hero_state(HERO_STATE_NORMAL);
            } else if self.entities[self.hero_id].get_state() != HERO_STATE_CROUCHING {
                self.set_hero_state(HERO_STATE_NORMAL);
            }
        }
    }
}

impl Game {
    /// Advances every entity's animation by one tick.
    fn animate_all(&mut self)
        requires
            old(self).wf(),
        ensures
            final(self).wf(),
            Self::only_entities_changed(*old(self), *final(self)),
            forall|i: int|
                0 <= i < final(self).entities@.len() ==> Entity::animate_post(
                    #[trigger] old(self).entities@[i],
                    final(self).entities@[i],
                    None,
                ),
            final(self).hero_position() == old(self).hero_position(),
            final(self).hero_entity().state() == old(self).hero_entity().state(),
            final(self).sword_figure() .visible == old(self).sword_figure().visible,
    {
        let ghost g0 = *self;
        let n = self.entities.len();
        let mut i: usize = 0;
        while i < n
            invariant
                g0.wf(),
                n == g0.entities@.len(),
                i <= n,
                Self::only_entities_changed(g0, *self),
                forall|j: int|
                    0 <= j < i ==> Entity::animate_post(
                        #[trigger] g0.entities@[j],
                        self.entities@[j],
                        None,
                    ),
                forall|j: int| i <= j < n ==> #[trigger] self.entities@[j] == g0.entities@[j],
                forall|j: int| 0 <= j < n ==> (#[trigger] self.entities@[j]).can_animate(None),
                hero_ready(self.hero_entity()),
                sword_ready(self.entity(self.sword_id)),
                self.hero_entity().figure().position == g0.hero_entity().figure().position,
                self.hero_entity().state() == g0.hero_entity().state(),
                self.sword_figure() == (Figure { sprites: self.sword_figure().sprites, ..g0.sword_figure() }),
                self.entity(self.console_id) == g0.entity(g0.console_id),
            decreases n - i,
        {
            let ghost before = self.entities@[i as int];
            self.entities[i].animate();
            proof {
                let after = self.entities@[i as int];
                if i == self.hero_id {
                    lemma_hero_ready_kept(before, after, None);
                }
                if i == self.sword_id {
                    lemma_sword_ready_kept(before, after);
                }
            }
            i += 1;
        }
        proof {
            Self::lemma_arena_kept(g0, *self);
        }
    }

    /// Whether the sword, swung, defeats entity `id` of the room.
    pub open spec fn defeats(&self, id: int) -> bool {
        &&& self.sword_figure().visible
        &&& self.is_obstacle(id)
        &&& exists|j: int| 0 <= j < self.room().entities@.len() && self.room().entities@[j] == id
        &&& self.entities@[id].defeatable()
        &&& overlap_spec(self.sword_figure(), self.entities@[id].figure())
    }

    /// Hides every defeatable obstacle that the swung sword overlaps.
    fn strike(&mut self)
        requires
            old(self).wf(),
        ensures
            final(self).wf(),
            Self::only_entities_changed(*old(self), *final(self)),
            forall|i: int|
                0 <= i < final(self).entities@.len() ==> #[trigger] final(self).entities@[i] == if old(
                    self,
                ).defeats(i) {
                    Self::shown(old(self).entities@[i], false)
                } else {
                    old(self).entities@[i]
                },
    {
        let ghost g0 = *self;
        if !self.entities[self.sword_id].get_figure().visible {
            return;
        }
        let n = self.rooms[self.current_room].entities.len();
        let mut k: usize = 0;
        while k < n
            invariant
                g0.wf(),
                g0.sword_figure().visible,
                n == g0.room().entities@.len(),
                k <= n,
                Self::only_entities_changed(g0, *self),
                self.wf(),
                self.sword_figure() == g0.sword_figure(),
                forall|i: int|
                    0 <= i < self.entities@.len() ==> #[trigger] self.entities@[i] == if (exists|j: int|
                        0 <= j < k && g0.room().entities@[j] == i) && g0.defeats(i) {
                        Self::shown(g0.entities@[i], false)
                    } else {
                        g0.entities@[i]
                    },
            decreases n - k,
        {
            let id = self.rooms[self.current_room].entities[k];
            let ghost before = *self;
            if id != self.hero_id && id != self.sword_id && id != self.console_id {
                if self.entities[id].is_defeatable() && figures_overlap(
                    self.entities[self.sword_id].get_figure(),
                    self.entities[id].get_figure(),
                ) {
                    self.set_visible(id, false);
                }
            }
            proof {
                assert(g0.room().entities@[k as int] == id);
                assert forall|i: int| 0 <= i < self.entities@.len() implies #[trigger] self.entities@[i]
                    == if (exists|j: int| 0 <= j < k + 1 && g0.room().entities@[j] == i) && g0.defeats(i) {
                    Self::shown(g0.entities@[i], false)
                } else {
                    g0.entities@[i]
                } by {
                    if i == id {
                        if g0.defeats(id as int) {
                            assert(exists|j: int| 0 <= j < k + 1 && g0.room().entities@[j] == i);
                        }
                    } else {
                        if exists|j: int| 0 <= j < k + 1 && g0.room().entities@[j] == i {
                            let j = choose|j: int| 0 <= j < k + 1 && g0.room().entities@[j] == i;
                            assert(j < k);
                        }
                    }
                }
                Self::lemma_arena_kept(before, *self);
            }
            k += 1;
        }
        proof {
            assert forall|i: int| 0 <= i < self.entities@.len() implies #[trigger] self.entities@[i]
                == if g0.defeats(i) {
                Self::shown(g0.entities@[i], false)
            } else {
                g0.entities@[i]
            } by {
                if g0.defeats(i) {
                    let j = choose|j: int|
                        0 <= j < g0.room().entities@.len() && g0.room().entities@[j] == i;
                    assert(exists|j: int| 0 <= j < n && g0.room().entities@[j] == i);
                }
            }
        }
    }
}

impl Game {
    /// `new` is `old` after every entity's animation advanced one tick.
    pub open spec fn animated(old: Game, new: Game) -> bool {
        &&& Self::only_entities_changed(old, new)
        &&& forall|i: int|
            0 <= i < new.entities@.len() ==> Entity::animate_post(
                #[trigger] old.entities@[i],
                new.entities@[i],
                None,
            )
    }

    /// `new` is `old` after one row of gravity or of a jump.
    pub open spec fn fell(old: Game, new: Game) -> bool {
        &&& Self::only_entities_changed_but_view(old, new)
        &&& Self::same_obstacles(old, new)
        &&& new.hero_position() == old.fall_position()
        &&& new.hero.jump_potential == old.fall_jump()
        &&& new.hero_entity().state() == old.fall_state()
        &&& new.view_position == if old.fall_kills() {
            Position { x: 0, y: 0 }
        } else {
            old.view_position
        }
        &&& new.hero.direction_right == old.hero.direction_right
        &&& new.sword_figure().visible == old.sword_figure().visible
    }

    /// `new` is `old` after the sword struck: every defeatable obstacle that
    /// the swung sword overlaps is hidden.
    pub open spec fn struck(old: Game, new: Game) -> bool {
        &&& Self::only_entities_changed(old, new)
        &&& forall|i: int|
            0 <= i < new.entities@.len() ==> #[trigger] new.entities@[i] == if old.defeats(i) {
                Self::shown(old.entities@[i], false)
            } else {
                old.entities@[i]
            }
    }

    /// `new` is `old` with the console entity and the caret brought up to
    /// date.
    pub open spec fn console_refreshed(old: Game, new: Game) -> bool {
        &&& new.console_shown()
        &&& Self::same_world(old, new)
        &&& forall|i: int|
            0 <= i < new.entities@.len() && i != new.console_id ==> #[trigger] new.entities@[i]
                == old.entities@[i]
        &&& new.symbol_buffer == old.symbol_buffer
        &&& new.color_buffer == old.color_buffer
        &&& new.stopped == old.stopped
        &&& new.view_position == old.view_position
        &&& new.console == old.console
        &&& new.hero == old.hero
    }

    /// One simulation tick: animations advance, gravity or the jump moves the
    /// hero, the sword strikes, and the console follows the view.
    pub open spec fn ticked(old: Game, new: Game) -> bool {
        exists|a: Game, b: Game, c: Game|
            Self::animated(old, a) && Self::fell(a, b) && Self::struck(b, c) && Self::console_refreshed(
                c,
                new,
            )
    }

    fn tick(&mut self)
        requires
            old(self).wf(),
        ensures
            final(self).wf(),
            Self::ticked(*old(self), *final(self)),
    {
        let ghost g0 = *self;
        self.animate_all();
        let ghost a = *self;
        self.apply_physics();
        let ghost b = *self;
        self.strike();
        let ghost c = *self;
        self.manage_console();
        assert(Self::animated(g0, a) && Self::fell(a, b) && Self::struck(b, c) && Self::console_refreshed(c, *self));
    }

    /// Runs one tick, then redraws the current room into the grids: they are
    /// cleared, and the room's entities are drawn in their listed order. The
    /// sword, shown for this one frame when swung, is hidden again after.
    pub fn render(&mut self)
        requires
            old(self).wf(),
        ensures
            final(self).wf(),
            exists|mid: Game|
                {
                    &&& Self::ticked(*old(self), mid)
                    &&& mid.wf()
                    &&& final(self).canvas() == draw_entities(
                        blank_canvas(mid.size.width as int, mid.size.height as int),
                        mid.size.width as int,
                        mid.size.height as int,
                        mid.entities@,
                        mid.room().entities@,
                        mid.view_position,
                    )
                    &&& final(self).entities@ == mid.entities@.update(
                        mid.sword_id as int,
                        Self::shown(mid.entity(mid.sword_id), false),
                    )
                    &&& Self::same_world(mid, *final(self))
                    &&& final(self).stopped == mid.stopped
                    &&& final(self).cursor_position == mid.cursor_position
                    &&& final(self).view_position == mid.view_position
                    &&& final(self).console == mid.console
                    &&& final(self).hero == mid.hero
                },
    {
        self.tick();
        let ghost mid = *self;
        let size = self.size;
        self.resize_buffers(size);
        assert(canvas_shaped(self.canvas(), size.width as int, size.height as int));
        draw_entities_into(
            &mut self.symbol_buffer,
            &mut self.color_buffer,
            size.width,
            size.height,
            &self.entities,
            &self.rooms[self.current_room].entities,
            self.view_position,
        );
        let ghost drawn = *self;
        self.set_visible(self.sword_id, false);
        proof {
            lemma_sword_ready_refigured(
                drawn.entity(drawn.sword_id),
                Figure { visible: false, ..drawn.sword_figure() },
            );
            Self::lemma_arena_kept(mid, *self);
        }
    }
}

/// Whether typing `c` adds it to the spell: a letter or a space.
pub open spec fn is_spell_char(c: char) -> bool {
    ('a' <= c && c <= 'z') || ('A' <= c && c <= 'Z') || c == ' '
}

/// Whether `key` acts on the hero or its sword.
pub open spec fn is_action_key(key: char) -> bool {
    key == KEY_LEFT || key == KEY_RIGHT || key == KEY_JUMP || key == KEY_CROUCH || key == KEY_ATTACK
}

impl Game {
    /// Runs a controller step on the hero entity.
    fn turn_hero(&mut self, dir: i32)
        requires
            old(self).wf(),
        ensures
            final(self).wf(),
            Self::only_entities_changed_but_view(*old(self), *final(self)),
            Self::same_obstacles(*old(self), *final(self)),
            final(self).view_position == old(self).view_position,
            final(self).hero_position() == old(self).hero_position(),
            final(self).hero.direction_right == (dir > 0),
            final(self).hero.jump_potential == old(self).hero.jump_potential,
            final(self).hero_entity().state() == if old(self).hero_entity().state()
                == HERO_STATE_JUMPING_LEFT || old(self).hero_entity().state()
                == HERO_STATE_JUMPING_RIGHT {
                HeroController::jump_state(dir > 0)
            } else {
                old(self).hero_entity().state()
            },
            final(self).sword_figure() == old(self).sword_figure(),
    {
        let ghost before = *self;
        self.hero.move_entity(&mut self.entities[self.hero_id], dir);
        proof {
            Self::lemma_hero_swap_wf(before, *self);
        }
    }

    fn jump_hero(&mut self)
        requires
            old(self).wf(),
        ensures
            final(self).wf(),
            Self::only_entities_changed_but_view(*old(self), *final(self)),
            Self::same_obstacles(*old(self), *final(self)),
            final(self).view_position == old(self).view_position,
            final(self).hero_position() == old(self).hero_position(),
            final(self).hero.direction_right == old(self).hero.direction_right,
            final(self).hero_entity().state() == if old(self).hero_entity().state()
                == HERO_STATE_CROUCHING {
                HERO_STATE_NORMAL
            } else {
                HeroController::jump_state(old(self).hero.direction_right)
            },
            final(self).hero.jump_potential == if old(self).hero_entity().state()
                != HERO_STATE_CROUCHING && old(self).hero.jump_potential == 0 && old(
                self,
            ).hero_entity().state() != HERO_STATE_FALLING && old(self).hero_entity().state()
                != HERO_STATE_JUMPING_LEFT && old(self).hero_entity().state()
                != HERO_STATE_JUMPING_RIGHT {
                HERO_JUMPING_HEIGHT
            } else {
                old(self).hero.jump_potential
            },
            final(self).sword_figure() == old(self).sword_figure(),
    {
        let ghost before = *self;
        self.hero.jump_entity(&mut self.entities[self.hero_id]);
        proof {
            Self::lemma_hero_swap_wf(before, *self);
        }
    }

    fn crouch_hero(&mut self)
        requires
            old(self).wf(),
        ensures
            final(self).wf(),
            Self::only_entities_changed(*old(self), *final(self)),
            Self::same_obstacles(*old(self), *final(self)),
            final(self).hero_position() == old(self).hero_position(),
            final(self).hero_entity().state() == HERO_STATE_CROUCHING,
            final(self).sword_figure() == old(self).sword_figure(),
    {
        let ghost before = *self;
        self.hero.crouch_entity(&mut self.entities[self.hero_id]);
        proof {
            Self::lemma_hero_swap_wf(before, *self);
        }
    }

    /// Replacing the hero entity by a ready one in the same place, and
    /// keeping the jump potential in range, keeps the game well formed.
    proof fn lemma_hero_swap_wf(old: Game, new: Game)
        requires
            old.wf(),
            new.entities@ == old.entities@.update(old.hero_id as int, new.hero_entity()),
            Self::only_entities_changed_but_view(old, new),
            new.view_position == old.view_position,
            hero_ready(new.hero_entity()),
            new.hero_position() == old.hero_position(),
            0 <= new.hero.jump_potential <= HERO_JUMPING_HEIGHT,
        ensures
            new.wf(),
            Self::same_obstacles(old, new),
            new.sword_figure() == old.sword_figure(),
    {
        Self::lemma_arena_kept(old, new);
    }

    /// Swings the sword: it shows, and strikes, on the next frame.
    fn swing_sword(&mut self)
        requires
            old(self).wf(),
        ensures
            final(self).wf(),
            Self::only_entities_changed(*old(self), *final(self)),
            Self::same_obstacles(*old(self), *final(self)),
            final(self).entities@ == old(self).entities@.update(
                old(self).sword_id as int,
                Self::shown(old(self).entity(old(self).sword_id), true),
            ),
    {
        let ghost before = *self;
        self.set_visible(self.sword_id, true);
        proof {
            lemma_sword_ready_refigured(
                before.entity(before.sword_id),
                Figure { visible: true, ..before.sword_figure() },
            );
            Self::lemma_arena_kept(before, *self);
        }
    }

    /// The spell after `key`: Enter casts (empties) it, Backspace deletes
    /// its last character, a letter or space is appended.
    pub open spec fn spell_after(spell: Seq<char>, key: char) -> Seq<char> {
        if key == KEY_ENTER {
            Seq::empty()
        } else if key == KEY_BACKSPACE {
            if spell.len() > 0 {
                spell.drop_last()
            } else {
                spell
            }
        } else if is_spell_char(key) {
            spell.push(key)
        } else {
            spell
        }
    }

    /// Handles one key press. Ctrl+Q stops the game. The left and right keys
    /// step the hero, the jump key jumps (or stands up from a crouch), the
    /// crouch key crouches and the attack key swings the sword; Enter,
    /// Backspace, letters and space edit the spell; digits and other keys
    /// do nothing.
    pub fn process_key(&mut self, key: char, ctrl: bool)
        requires
            old(self).wf(),
        ensures
            final(self).wf(),
            Self::same_world(*old(self), *final(self)),
            Self::same_obstacles(*old(self), *final(self)),
            ctrl && key == 'q' ==> {
                &&& final(self).stopped
                &&& final(self).symbol_buffer == old(self).symbol_buffer
                &&& final(self).color_buffer == old(self).color_buffer
                &&& final(self).entities == old(self).entities
                &&& final(self).view_position == old(self).view_position
                &&& final(self).hero == old(self).hero
                &&& final(self).console == old(self).console
                &&& final(self).cursor_position == old(self).cursor_position
            },
            !(ctrl && key == 'q') ==> {
                let d: int = if key == KEY_RIGHT {
                    1
                } else {
                    -1
                };
                let s = old(self).hero_entity().state();
                &&& final(self).stopped == old(self).stopped
                &&& final(self).console_shown()
                &&& final(self).console@ == Self::spell_after(old(self).console@, key)
                &&& final(self).symbol_buffer == old(self).symbol_buffer
                &&& final(self).color_buffer == old(self).color_buffer
                &&& (key == KEY_LEFT || key == KEY_RIGHT) ==> {
                    &&& final(self).hero_position() == old(self).step_position(d)
                    &&& final(self).view_position == if old(self).step_kills(d) {
                        Position { x: 0, y: 0 }
                    } else {
                        old(self).scrolled_view(d)
                    }
                    &&& final(self).hero.jump_potential == if old(self).step_kills(d) {
                        0
                    } else {
                        old(self).hero.jump_potential
                    }
                    &&& final(self).hero.direction_right == (d > 0)
                    &&& final(self).hero_entity().state() == if s == HERO_STATE_JUMPING_LEFT || s
                        == HERO_STATE_JUMPING_RIGHT {
                        HeroController::jump_state(d > 0)
                    } else {
                        s
                    }
                }
                &&& !(key == KEY_LEFT || key == KEY_RIGHT) ==> {
                    &&& final(self).hero_position() == old(self).hero_position()
                    &&& final(self).view_position == old(self).view_position
                }
                &&& key == KEY_JUMP ==> {
                    &&& final(self).hero_entity().state() == if s == HERO_STATE_CROUCHING {
                        HERO_STATE_NORMAL
                    } else {
                        HeroController::jump_state(old(self).hero.direction_right)
                    }
                    &&& final(self).hero.jump_potential == if s != HERO_STATE_CROUCHING && old(
                        self,
                    ).hero.jump_potential == 0 && s != HERO_STATE_FALLING && s
                        != HERO_STATE_JUMPING_LEFT && s != HERO_STATE_JUMPING_RIGHT {
                        HERO_JUMPING_HEIGHT
                    } else {
                        old(self).hero.jump_potential
                    }
                }
                &&& key == KEY_CROUCH ==> {
                    &&& final(self).hero_entity().state() == HERO_STATE_CROUCHING
                    &&& final(self).hero.jump_potential == old(self).hero.jump_potential
                }
                &&& key == KEY_ATTACK ==> {
                    &&& final(self).sword_figure().visible
                    &&& final(self).hero_entity() == old(self).hero_entity()
                    &&& final(self).hero == old(self).hero
                }
                &&& !is_action_key(key) ==> {
                    &&& final(self).hero_entity() == old(self).hero_entity()
                    &&& final(self).sword_figure() == old(self).sword_figure()
                    &&& final(self).hero == old(self).hero
                }
            },
    {
        if ctrl && key == 'q' {
            self.stopped = true;
            return;
        }
        if key == KEY_ENTER {
            let _spell = self.console.finish_spell();
        } else if key == KEY_BACKSPACE {
            self.console.backspace();
        } else if '1' <= key && key <= '9' {
        } else if key == KEY_LEFT || key == KEY_RIGHT {
            let delta: i32 = if key == KEY_RIGHT {
                1
            } else {
                -1
            };
            self.step_hero(delta);
            self.turn_hero(delta);
        } else if key == KEY_JUMP {
            self.jump_hero();
        } else if key == KEY_CROUCH {
            self.crouch_hero();
        } else if key == KEY_ATTACK {
            self.swing_sword();
        } else if ('a' <= key && key <= 'z') || ('A' <= key && key <= 'Z') || key == ' ' {
            self.console.add_char(key);
        }
        self.manage_console();
    }
}

impl Game {
    /// A hero at the room's left edge cannot step further left: it stays
    /// where it is.
    pub proof fn lemma_left_edge_blocks(g: Game)
        requires
            g.wf(),
            g.hero_position().x == 0,
        ensures
            !g.step_allowed(-1),
            g.step_position(-1) == g.hero_position(),
    {
    }

    /// A step that lands on a hazard sends the hero back to the room's
    /// origin; the jump potential and the view are reset with it
    /// (`process_key`).
    pub proof fn lemma_hazard_step_respawns(g: Game, delta: int)
        requires
            g.wf(),
            g.step_allowed(delta),
            g.hazard_hit(g.hero_at(g.step_target(delta))),
        ensures
            g.step_kills(delta),
            g.step_position(delta) == (Position { x: 0, y: 0 }),
    {
    }
}

/// A `w` by `h` grid holding `value` in every cell.
fn filled_grid<T: Copy>(w: usize, h: usize, value: T) -> (g: Vec<Vec<T>>)
    ensures
        grid_view(g@) == Seq::new(h as nat, |i: int| Seq::new(w as nat, |j: int| value)),
{
    let mut row: Vec<T> = Vec::new();
    let mut j: usize = 0;
    while j < w
        invariant
            j <= w,
            row@ == Seq::new(j as nat, |k: int| value),
        decreases w - j,
    {
        row.push(value);
        j += 1;
        assert(row@ =~= Seq::new(j as nat, |k: int| value));
    }
    let mut g: Vec<Vec<T>> = Vec::new();
    let mut i: usize = 0;
    while i < h
        invariant
            i <= h,
            row@ == Seq::new(w as nat, |k: int| value),
            grid_view(g@) == Seq::new(i as nat, |a: int| Seq::new(w as nat, |k: int| value)),
        decreases h - i,
    {
        let mut copy: Vec<T> = Vec::new();
        let mut k: usize = 0;
        while k < w
            invariant
                k <= w,
                i < h,
                grid_view(g@) == Seq::new(i as nat, |a: int| Seq::new(w as nat, |m: int| value)),
                copy@ == Seq::new(k as nat, |m: int| value),
            decreases w - k,
        {
            copy.push(value);
            k += 1;
            assert(copy@ =~= Seq::new(k as nat, |m: int| value));
        }
        let ghost before = g@;
        assert(grid_view(before).len() == before.len());
        assert(before.len() == i);
        g.push(copy);
        i += 1;
        assert forall|a: int| 0 <= a < i implies #[trigger] grid_view(g@)[a] == Seq::new(
            w as nat,
            |k: int| value,
        ) by {
            if a < i - 1 {
                assert(g@[a] == before[a]);
                assert(grid_view(before)[a] == before[a]@);
            }
        }
        assert(grid_view(g@) =~= Seq::new(i as nat, |a: int| Seq::new(w as nat, |k: int| value)));
    }
    g
}

} // verus!
