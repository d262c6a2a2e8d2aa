//! The spell console, the hero's movement controller and the sword.
use vstd::prelude::*;
use crate::atoms::{chars_of, Color, Figure, Position, Size, Sprite, SpriteID, StateID};
use crate::entities::{AnimatableEntity, AnimationPoint, Entity, ANIMATE_FOREVER};
use crate::ascii_art::{
    HERO, HERO_CROUCHED_HEIGHT, HERO_HEIGHT, HERO_WIDTH, HERO_CROUCHING_1, HERO_CROUCHING_2, HERO_FALL, HERO_JUMPING_HEIGHT, HERO_JUMPING_LEFT,
    HERO_JUMPING_RIGHT, SWORD_1, SWORD_2, SWORD_3, SWORD_4, SWORD_5, Y_BOTTOM,
};

verus! {

broadcast use vstd::std_specs::hash::group_hash_axioms;

/// Relies on `String::from_iter`: the string holds the given characters in
/// order.
#[verifier::external_body]
fn string_from_chars(chars: &Vec<char>) -> (s: String)
    ensures
        s@ == chars@,
{
    String::from_iter(chars.iter())
}

/// Copy of a character vector.
fn copy_chars(v: &Vec<char>) -> (r: Vec<char>)
    ensures
        r@ == v@,
{
    let mut r: Vec<char> = Vec::new();
    let mut i: usize = 0;
    while i < v.len()
        invariant
            i <= v@.len(),
            r@ == v@.take(i as int),
        decreases v@.len() - i,
    {
        r.push(v[i]);
        i += 1;
        assert(r@ =~= v@.take(i as int));
    }
    assert(v@.take(v@.len() as int) =~= v@);
    r
}

/// Number of bytes that `c` takes in UTF-8.
pub open spec fn utf8_width(c: char) -> nat {
    let v = c as u32;
    if v < 0x80 {
        1
    } else if v < 0x800 {
        2
    } else if v < 0x10000 {
        3
    } else {
        4
    }
}

/// Number of bytes that `s` takes in UTF-8.
pub open spec fn utf8_len(s: Seq<char>) -> nat
    decreases s.len(),
{
    if s.len() == 0 {
        0
    } else {
        utf8_len(s.drop_last()) + utf8_width(s.last())
    }
}

fn char_utf8_width(c: char) -> (n: usize)
    ensures
        n == utf8_width(c),
{
    let v = c as u32;
    if v < 0x80 {
        1
    } else if v < 0x800 {
        2
    } else if v < 0x10000 {
        3
    } else {
        4
    }
}

/// Line of text that the player types to cast a spell.
pub struct SpellConsole {
    spell: Vec<char>,
}

impl View for SpellConsole {
    type V = Seq<char>;

    closed spec fn view(&self) -> Seq<char> {
        self.spell@
    }
}

impl SpellConsole {
    pub fn new() -> (c: Self)
        ensures
            c@ == Seq::<char>::empty(),
    {
        Self { spell: Vec::new() }
    }

    pub fn add_char(&mut self, ch: char)
        ensures
            final(self)@ == old(self)@.push(ch),
    {
        self.spell.push(ch);
    }

    /// Removes the last character, if any.
    pub fn backspace(&mut self)
        ensures
            final(self)@ == if old(self)@.len() > 0 {
                old(self)@.drop_last()
            } else {
                old(self)@
            },
    {
        if self.spell.len() > 0 {
            self.spell.pop();
        }
    }

    /// Length of the spell in UTF-8 bytes (at most `usize::MAX`).
    pub fn get_len(&self) -> (n: usize)
        ensures
            n == if utf8_len(self@) <= usize::MAX {
                utf8_len(self@)
            } else {
                usize::MAX as nat
            },
    {
        let mut total: usize = 0;
        let mut i: usize = 0;
        while i < self.spell.len()
            invariant
                i <= self.spell@.len(),
                total == if utf8_len(self.spell@.take(i as int)) <= usize::MAX {
                    utf8_len(self.spell@.take(i as int))
                } else {
                    usize::MAX as nat
                },
            decreases self.spell@.len() - i,
        {
            proof {
                assert(self.spell@.take(i as int + 1).drop_last() =~= self.spell@.take(i as int));
            }
            let w = char_utf8_width(self.spell[i]);
            total = total.saturating_add(w);
            i += 1;
        }
        assert(self.spell@.take(self.spell@.len() as int) =~= self.spell@);
        total
    }

    /// Number of characters of the spell.
    pub fn char_count(&self) -> (n: usize)
        ensures
            n == self@.len(),
    {
        self.spell.len()
    }

    pub fn get_spell(&self) -> (s: String)
        ensures
            s@ == self@,
    {
        string_from_chars(&self.spell)
    }

    /// The typed characters, as a vector.
    pub fn get_spell_chars(&self) -> (v: Vec<char>)
        ensures
            v@ == self@,
    {
        copy_chars(&self.spell)
    }

    /// Returns the typed spell and empties the console.
    pub fn finish_spell(&mut self) -> (s: String)
        ensures
            s@ == old(self)@,
            final(self)@ == Seq::<char>::empty(),
    {
        let s = string_from_chars(&self.spell);
        self.spell.clear();
        s
    }
}

pub const HERO_STATE_NORMAL: StateID = 0;

pub const HERO_STATE_CROUCHING: StateID = 1;

pub const HERO_STATE_JUMPING_RIGHT: StateID = 2;

pub const HERO_STATE_JUMPING_LEFT: StateID = 3;

pub const HERO_STATE_FALLING: StateID = 4;

/// Whether `s` is one of the hero's five states.
pub open spec fn is_hero_state(s: StateID) -> bool {
    s <= HERO_STATE_FALLING
}

/// Whether `a` can serve as the hero's body: its five states have points,
/// each point shows a sprite, the current state has points, and no sprite has
/// a negative size.
pub open spec fn hero_body_ready(a: AnimatableEntity) -> bool {
    &&& a.wf()
    &&& a.figure.sprites@.len() > 0
    &&& forall|s: StateID| is_hero_state(s) ==> #[trigger] a.has_state(s)
    &&& a.has_state(a.current_state)
    &&& a.all_points_show()
    &&& forall|k: int|
        0 <= k < a.figure.sprites@.len() ==> (#[trigger] a.figure.sprites@[k]).size.width >= 0
            && a.figure.sprites@[k].size.height >= 0
}

pub open spec fn hero_ready(e: Entity) -> bool {
    e is Animatable && hero_body_ready(e->Animatable_0)
}

/// An animation step of a ready hero towards one of its states leaves it ready.
pub proof fn lemma_hero_ready_kept(old: Entity, new: Entity, new_state: Option<StateID>)
    requires
        hero_ready(old),
        Entity::animate_post(old, new, new_state),
        new.can_animate(None),
        new_state matches Some(s) ==> is_hero_state(s),
    ensures
        hero_ready(new),
        new.figure().position == old.figure().position,
        new.figure().visible == old.figure().visible,
{
    let a = old->Animatable_0;
    let b = new->Animatable_0;
    assert(a.has_state(HERO_STATE_NORMAL));
    assert(a.is_animating());
    if let Some(s) = new_state {
        assert(a.has_state(s));
    }
    assert forall|k: int| 0 <= k < b.figure.sprites@.len() implies (#[trigger] b.figure.sprites@[
        k
    ]).size.width >= 0 && b.figure.sprites@[k].size.height >= 0 by {
        assert(a.figure.sprites@[k].size == b.figure.sprites@[k].size);
    }
    assert forall|s: StateID| is_hero_state(s) implies #[trigger] b.has_state(s) by {
        assert(a.has_state(s));
    }
    assert forall|s: StateID, k: int|
        b.has_state(s) && 0 <= k < b.points(s).len() implies (#[trigger] b.points(
        s,
    )[k]).enabled_sprites@.len() > 0 by {
        assert(a.has_state(s));
        assert(a.points(s) == b.points(s));
    }
}

/// Moving or hiding the hero's figure leaves it ready.
pub proof fn lemma_hero_ready_refigured(e: Entity, f: Figure)
    requires
        hero_ready(e),
        f.sprites == e.figure().sprites,
    ensures
        hero_ready(e.with_figure(f)),
        e.with_figure(f).state() == e.state(),
        e.with_figure(f).size() == e.size(),
{
    let a = e->Animatable_0;
    let b = e.with_figure(f)->Animatable_0;
    assert(b.figure.sprites@ == a.figure.sprites@);
    assert(b.animations@ == a.animations@);
    assert forall|s: StateID| is_hero_state(s) implies #[trigger] b.has_state(s) by {
        assert(a.has_state(s));
    }
    assert forall|s: StateID, k: int|
        b.has_state(s) && 0 <= k < b.points(s).len() implies (#[trigger] b.points(
        s,
    )[k]).enabled_sprites@.len() > 0 by {
        assert(a.points(s) == b.points(s));
    }
    assert forall|k: int| 0 <= k < b.figure.sprites@.len() implies (#[trigger] b.figure.sprites@[
        k
    ]).size.width >= 0 && b.figure.sprites@[k].size.height >= 0 by {
        assert(a.figure.sprites@[k] == b.figure.sprites@[k]);
    }
}

/// Moving or showing the sword's figure leaves it ready.
pub proof fn lemma_sword_ready_refigured(e: Entity, f: Figure)
    requires
        sword_ready(e),
        f.sprites == e.figure().sprites,
    ensures
        sword_ready(e.with_figure(f)),
        e.with_figure(f).can_animate(None),
{
    let a = e->Animatable_0;
    let b = e.with_figure(f)->Animatable_0;
    assert(b.figure.sprites@ == a.figure.sprites@);
    assert(b.animations@ == a.animations@);
}

/// Whether `s` shows `content` in `color` at `offset`, has size `size`, and
/// is switched on exactly when `active`.
pub open spec fn sprite_is(
    s: Sprite,
    content: Seq<char>,
    color: Color,
    offset: Position,
    size: Size,
    active: bool,
) -> bool {
    &&& s.content@ == content
    &&& s.color == color
    &&& s.offset == offset
    &&& s.size == size
    &&& s.active == active
}

/// Whether `p` shows the single sprite `id` for `duration` ticks.
pub open spec fn point_is(p: AnimationPoint, duration: u32, id: SpriteID) -> bool {
    p.duration == duration && p.enabled_sprites@ == seq![id]
}

/// The hero as built: six magenta sprites (standing, two crouching frames,
/// jumping left, jumping right, falling) of which only the standing one is
/// on; each state holds its sprite forever, except crouching, which shows the
/// first crouching frame for four ticks and then rests on the second, one row
/// lower and one row shorter. It stands at the origin in the normal state.
pub open spec fn hero_at_start(a: AnimatableEntity) -> bool {
    let magenta = Color { r: 255, g: 0, b: 255 };
    let o = Position { x: 0, y: 0 };
    let full = Size { width: HERO_WIDTH, height: HERO_HEIGHT };
    let sp = a.figure.sprites@;
    &&& sp.len() == 6
    &&& sprite_is(sp[0], HERO@, magenta, o, full, true)
    &&& sprite_is(sp[1], HERO_CROUCHING_1@, magenta, o, full, false)
    &&& sprite_is(
        sp[2],
        HERO_CROUCHING_2@,
        magenta,
        Position { x: 0, y: 1 },
        Size { width: HERO_WIDTH, height: HERO_CROUCHED_HEIGHT },
        false,
    )
    &&& sprite_is(sp[3], HERO_JUMPING_LEFT@, magenta, o, full, false)
    &&& sprite_is(sp[4], HERO_JUMPING_RIGHT@, magenta, o, full, false)
    &&& sprite_is(sp[5], HERO_FALL@, magenta, o, full, false)
    &&& forall|s: StateID| #[trigger] a.has_state(s) <==> is_hero_state(s)
    &&& a.points(HERO_STATE_NORMAL).len() == 1
    &&& point_is(a.points(HERO_STATE_NORMAL)[0], ANIMATE_FOREVER, 0)
    &&& a.points(HERO_STATE_CROUCHING).len() == 2
    &&& point_is(a.points(HERO_STATE_CROUCHING)[0], 4, 1)
    &&& point_is(a.points(HERO_STATE_CROUCHING)[1], ANIMATE_FOREVER, 2)
    &&& a.points(HERO_STATE_JUMPING_LEFT).len() == 1
    &&& point_is(a.points(HERO_STATE_JUMPING_LEFT)[0], ANIMATE_FOREVER, 3)
    &&& a.points(HERO_STATE_JUMPING_RIGHT).len() == 1
    &&& point_is(a.points(HERO_STATE_JUMPING_RIGHT)[0], ANIMATE_FOREVER, 4)
    &&& a.points(HERO_STATE_FALLING).len() == 1
    &&& point_is(a.points(HERO_STATE_FALLING)[0], ANIMATE_FOREVER, 5)
    &&& a.current_state == HERO_STATE_NORMAL
    &&& a.current_animation_point == 0
    &&& a.animation_call_counter == 0
    &&& a.figure.position == o
    &&& a.figure.visible
}

/// Movement and jump state of the hero, kept beside its entity.
pub struct HeroController {
    pub direction_right: bool,
    pub health: u32,
    /// Rows the current jump still rises.
    pub jump_potential: i32,
}

impl HeroController {
    pub fn new() -> (c: Self)
        ensures
            c.health == 10,
            c.direction_right,
            c.jump_potential == 0,
    {
        Self { health: 10, direction_right: true, jump_potential: 0 }
    }

    /// The jumping state that matches the direction the hero faces.
    pub open spec fn jump_state(direction_right: bool) -> StateID {
        if direction_right {
            HERO_STATE_JUMPING_RIGHT
        } else {
            HERO_STATE_JUMPING_LEFT
        }
    }

    /// The hero standing at the origin, in its starting pose.
    pub fn new_entity(&self) -> (e: Entity)
        ensures
            hero_ready(e),
            hero_at_start(e->Animatable_0),
            e.state() == HERO_STATE_NORMAL,
            e.size() == (Size { width: HERO_WIDTH, height: HERO_HEIGHT }),
            e.figure().position == (Position { x: 0, y: 0 }),
            e.figure().visible,
            e.damage() == 0,
    {
        let hero_size = Size::new(HERO_WIDTH, HERO_HEIGHT);
        let crouching_size = Size::new(HERO_WIDTH, HERO_CROUCHED_HEIGHT);
        let mut ent = AnimatableEntity::new(Position::origin());
        let staying = ent.add_sprite(art_sprite(HERO, Color::magenta(), Position::origin(), hero_size));
        let crouching_1 = ent.add_sprite(
            art_sprite(HERO_CROUCHING_1, Color::magenta(), Position::origin(), hero_size),
        );
        let crouching_2 = ent.add_sprite(
            art_sprite(HERO_CROUCHING_2, Color::magenta(), Position::new(0, 1), crouching_size),
        );
        let jumping_left = ent.add_sprite(
            art_sprite(HERO_JUMPING_LEFT, Color::magenta(), Position::origin(), hero_size),
        );
        let jumping_right = ent.add_sprite(
            art_sprite(HERO_JUMPING_RIGHT, Color::magenta(), Position::origin(), hero_size),
        );
        let falling = ent.add_sprite(art_sprite(HERO_FALL, Color::magenta(), Position::origin(), hero_size));
        let ghost sprites = ent.figure.sprites@;
        assert(ent.all_points_show());
        ent.add_animation_point(HERO_STATE_NORMAL, single(staying), ANIMATE_FOREVER);
        let ghost normal = ent.points(HERO_STATE_NORMAL);
        assert(point_is(normal[0], ANIMATE_FOREVER, 0));
        ent.add_animation_point(HERO_STATE_CROUCHING, single(crouching_1), 4);
        assert(point_is(ent.points(HERO_STATE_CROUCHING)[0], 4, 1));
        ent.add_animation_point(HERO_STATE_CROUCHING, single(crouching_2), ANIMATE_FOREVER);
        assert(point_is(ent.points(HERO_STATE_CROUCHING)[0], 4, 1));
        assert(ent.points(HERO_STATE_NORMAL) == normal);
        let ghost crouching = ent.points(HERO_STATE_CROUCHING);
        ent.add_animation_point(HERO_STATE_JUMPING_LEFT, single(jumping_left), ANIMATE_FOREVER);
        assert(ent.points(HERO_STATE_NORMAL) == normal);
        assert(ent.points(HERO_STATE_CROUCHING) == crouching);
        ent.add_animation_point(HERO_STATE_JUMPING_RIGHT, single(jumping_right), ANIMATE_FOREVER);
        assert(ent.points(HERO_STATE_NORMAL) == normal);
        assert(ent.points(HERO_STATE_CROUCHING) == crouching);
        ent.add_animation_point(HERO_STATE_FALLING, single(falling), ANIMATE_FOREVER);
        assert(ent.points(HERO_STATE_NORMAL) == normal);
        assert(ent.points(HERO_STATE_CROUCHING) == crouching);
        // Start in the standing pose.
        ent.figure.sprites[staying].active = true;
        proof {
            assert forall|s: StateID| is_hero_state(s) implies #[trigger] ent.has_state(s) by {
                assert(s == 0 || s == 1 || s == 2 || s == 3 || s == 4);
            }
            assert forall|k: int| 0 <= k < ent.figure.sprites@.len() implies (
            #[trigger] ent.figure.sprites@[k]).size.width >= 0
                && ent.figure.sprites@[k].size.height >= 0 by {
                assert(ent.figure.sprites@[k].size == sprites[k].size);
            }
            assert(ent.current_point() == ent.points(HERO_STATE_NORMAL)[0]);
            assert forall|s: StateID| #[trigger] ent.has_state(s) <==> is_hero_state(s) by {
                assert(s == 0 || s == 1 || s == 2 || s == 3 || s == 4 || !is_hero_state(s));
            }
        }
        Entity::Animatable(ent)
    }

    /// Faces the hero along `dir`; mid-jump, turns the jump that way too.
    pub fn move_entity(&mut self, ent: &mut Entity, dir: i32)
        requires
            hero_ready(*old(ent)),
        ensures
            final(self).direction_right == (dir > 0),
            final(self).health == old(self).health,
            final(self).jump_potential == old(self).jump_potential,
            hero_ready(*final(ent)),
            final(ent).figure().position == old(ent).figure().position,
            final(ent).state() == if old(ent).state() == HERO_STATE_JUMPING_LEFT || old(ent).state()
                == HERO_STATE_JUMPING_RIGHT {
                Self::jump_state(dir > 0)
            } else {
                old(ent).state()
            },
            if old(ent).state() == HERO_STATE_JUMPING_LEFT || old(ent).state()
                == HERO_STATE_JUMPING_RIGHT {
                Entity::animate_post(*old(ent), *final(ent), Some(Self::jump_state(dir > 0)))
            } else {
                *final(ent) == *old(ent)
            },
    {
        self.direction_right = dir > 0;
        let state = ent.get_state();
        if state == HERO_STATE_JUMPING_LEFT || state == HERO_STATE_JUMPING_RIGHT {
            let ghost before = *ent;
            assert(before->Animatable_0.has_state(Self::jump_state(dir > 0)));
            if self.direction_right {
                ent.set_state(HERO_STATE_JUMPING_RIGHT);
            } else {
                ent.set_state(HERO_STATE_JUMPING_LEFT);
            }
            proof {
                lemma_hero_ready_kept(before, *ent, Some(Self::jump_state(dir > 0)));
            }
        }
    }

    /// Stands up from a crouch; otherwise starts a jump when on the ground
    /// and switches to the jumping state of the current direction.
    pub fn jump_entity(&mut self, ent: &mut Entity)
        requires
            hero_ready(*old(ent)),
        ensures
            final(self).direction_right == old(self).direction_right,
            final(self).health == old(self).health,
            hero_ready(*final(ent)),
            final(ent).figure().position == old(ent).figure().position,
            final(ent).state() == if old(ent).state() == HERO_STATE_CROUCHING {
                HERO_STATE_NORMAL
            } else {
                Self::jump_state(old(self).direction_right)
            },
            if old(ent).state() == HERO_STATE_CROUCHING {
                &&& final(self).jump_potential == old(self).jump_potential
                &&& Entity::animate_post(*old(ent), *final(ent), Some(HERO_STATE_NORMAL))
            } else {
                &&& final(self).jump_potential == if old(self).jump_potential == 0
                    && old(ent).state() != HERO_STATE_FALLING && old(ent).state()
                    != HERO_STATE_JUMPING_LEFT && old(ent).state() != HERO_STATE_JUMPING_RIGHT {
                    HERO_JUMPING_HEIGHT
                } else {
                    old(self).jump_potential
                }
                &&& Entity::animate_post(
                    *old(ent),
                    *final(ent),
                    Some(Self::jump_state(old(self).direction_right)),
                )
            },
    {
        let ghost before = *ent;
        assert(before->Animatable_0.has_state(HERO_STATE_NORMAL));
        assert(before->Animatable_0.has_state(Self::jump_state(self.direction_right)));
        let state = ent.get_state();
        if state == HERO_STATE_CROUCHING {
            ent.set_state(HERO_STATE_NORMAL);
            proof {
                lemma_hero_ready_kept(before, *ent, Some(HERO_STATE_NORMAL));
            }
        } else {
            if self.jump_potential == 0 && state != HERO_STATE_FALLING && state
                != HERO_STATE_JUMPING_LEFT && state != HERO_STATE_JUMPING_RIGHT {
                self.jump_potential = HERO_JUMPING_HEIGHT;
            }
            if self.direction_right {
                ent.set_state(HERO_STATE_JUMPING_RIGHT);
            } else {
                ent.set_state(HERO_STATE_JUMPING_LEFT);
            }
            proof {
                lemma_hero_ready_kept(before, *ent, Some(Self::jump_state(self.direction_right)));
            }
        }
    }

    pub fn crouch_entity(&self, ent: &mut Entity)
        requires
            hero_ready(*old(ent)),
        ensures
            hero_ready(*final(ent)),
            final(ent).figure().position == old(ent).figure().position,
            final(ent).state() == HERO_STATE_CROUCHING,
            Entity::animate_post(*old(ent), *final(ent), Some(HERO_STATE_CROUCHING)),
    {
        let ghost before = *ent;
        assert(before->Animatable_0.has_state(HERO_STATE_CROUCHING));
        ent.set_state(HERO_STATE_CROUCHING);
        proof {
            lemma_hero_ready_kept(before, *ent, Some(HERO_STATE_CROUCHING));
        }
    }
}

/// A list holding only `id`.
fn single(id: SpriteID) -> (v: Vec<SpriteID>)
    ensures
        v@ == seq![id],
{
    let mut v: Vec<SpriteID> = Vec::new();
    v.push(id);
    v
}

/// An active sprite showing `content` with an explicit size.
fn art_sprite(content: &str, color: Color, offset: Position, size: Size) -> (s: Sprite)
    ensures
        s.content@ == content@,
        s.color == color,
        s.offset == offset,
        s.size == size,
        s.active,
{
    Sprite { color, content: chars_of(content), offset, size, active: true }
}

pub const SWORD_STATE_NORMAL: StateID = 0;

/// Whether `e` can serve as the sword: an animated entity whose current
/// state has points.
pub open spec fn sword_ready(e: Entity) -> bool {
    &&& e is Animatable
    &&& e->Animatable_0.figure.sprites@.len() > 0
    &&& e->Animatable_0.wf()
    &&& e->Animatable_0.has_state(e->Animatable_0.current_state)
}

/// An animation tick leaves a ready sword ready, in place.
pub proof fn lemma_sword_ready_kept(old: Entity, new: Entity)
    requires
        sword_ready(old),
        Entity::animate_post(old, new, None),
        new.can_animate(None),
    ensures
        sword_ready(new),
        new.figure().position == old.figure().position,
        new.figure().visible == old.figure().visible,
{
    assert(old->Animatable_0.is_animating());
}

/// The sword as built: hidden, with five yellow 3-by-3 frames at its origin of
/// which only the first is on, and a normal state (its only one) that shows
/// each frame in turn for two ticks.
pub open spec fn sword_at_start(a: AnimatableEntity) -> bool {
    let yellow = Color { r: 255, g: 255, b: 0 };
    let o = Position { x: 0, y: 0 };
    let size = Size { width: 3, height: 3 };
    let sp = a.figure.sprites@;
    &&& sp.len() == 5
    &&& sprite_is(sp[0], SWORD_1@, yellow, o, size, true)
    &&& sprite_is(sp[1], SWORD_2@, yellow, o, size, false)
    &&& sprite_is(sp[2], SWORD_3@, yellow, o, size, false)
    &&& sprite_is(sp[3], SWORD_4@, yellow, o, size, false)
    &&& sprite_is(sp[4], SWORD_5@, yellow, o, size, false)
    &&& forall|s: StateID| #[trigger] a.has_state(s) <==> s == SWORD_STATE_NORMAL
    &&& a.points(SWORD_STATE_NORMAL).len() == 5
    &&& forall|k: int| 0 <= k < 5 ==> point_is(#[trigger] a.points(SWORD_STATE_NORMAL)[k], 2, k as SpriteID)
    &&& a.current_state == SWORD_STATE_NORMAL
    &&& a.current_animation_point == 0
    &&& a.animation_call_counter == 2
    &&& !a.figure.visible
}

/// Builder of the sword: a transient attack hitbox, hidden unless swung.
pub struct SwordController {}

impl SwordController {
    /// The hidden sword, cycling through five frames of two ticks each.
    pub fn new_entity() -> (e: Entity)
        ensures
            sword_ready(e),
            sword_at_start(e->Animatable_0),
            e.state() == SWORD_STATE_NORMAL,
            !e.figure().visible,
            e.figure().position == (Position { x: 0, y: (Y_BOTTOM - 3) as i32 }),
    {
        let size = Size::new(3, 3);
        let mut ent = AnimatableEntity::new(Position::new(0, Y_BOTTOM - size.height));
        ent.figure.visible = false;
        let color = Color::yellow();
        let mut sprite_ids: Vec<SpriteID> = Vec::new();
        sprite_ids.push(ent.add_sprite(art_sprite(SWORD_1, color, Position::origin(), size)));
        sprite_ids.push(ent.add_sprite(art_sprite(SWORD_2, color, Position::origin(), size)));
        sprite_ids.push(ent.add_sprite(art_sprite(SWORD_3, color, Position::origin(), size)));
        sprite_ids.push(ent.add_sprite(art_sprite(SWORD_4, color, Position::origin(), size)));
        sprite_ids.push(ent.add_sprite(art_sprite(SWORD_5, color, Position::origin(), size)));
        assert(sprite_ids@ =~= seq![0usize, 1, 2, 3, 4]);
        let ghost sprites = ent.figure.sprites@;
        let mut i: usize = 0;
        while i < sprite_ids.len()
            invariant
                ent.wf(),
                ent.current_state == SWORD_STATE_NORMAL,
                ent.current_animation_point == 0,
                ent.animation_call_counter == 0,
                ent.figure.sprites@ == sprites,
                sprites.len() == 5,
                !ent.figure.visible,
                ent.figure.position == (Position { x: 0, y: (Y_BOTTOM - 3) as i32 }),
                sprite_ids@ == seq![0usize, 1, 2, 3, 4],
                i <= 5,
                forall|s: StateID| #[trigger] ent.has_state(s) ==> s == SWORD_STATE_NORMAL,
                i > 0 ==> ent.has_state(SWORD_STATE_NORMAL) && ent.points(SWORD_STATE_NORMAL).len()
                    == i,
                i == 0 ==> !ent.has_state(SWORD_STATE_NORMAL),
                forall|k: int|
                    0 <= k < i ==> point_is(#[trigger] ent.points(SWORD_STATE_NORMAL)[k], 2, k as SpriteID),
            decreases sprite_ids@.len() - i,
        {
            let ghost before = ent.points(SWORD_STATE_NORMAL);
            let ghost old_ent = ent;
            ent.add_animation_point(SWORD_STATE_NORMAL, single(sprite_ids[i]), 2);
            proof {
                assert forall|k: int| 0 <= k < i + 1 implies point_is(
                    #[trigger] ent.points(SWORD_STATE_NORMAL)[k],
                    2,
                    k as SpriteID,
                ) by {
                    if k < i {
                        assert(ent.points(SWORD_STATE_NORMAL)[k] == before[k]);
                    }
                }
                assert forall|s: StateID| #[trigger] ent.has_state(s) implies s == SWORD_STATE_NORMAL by {
                    if s != SWORD_STATE_NORMAL {
                        assert(old_ent.has_state(s));
                    }
                }
            }
            i += 1;
        }
        assert(ent.has_state(SWORD_STATE_NORMAL));
        let ghost done = ent;
        // Start on the first frame.
        ent.figure.sprites[sprite_ids[0]].active = true;
        ent.animation_call_counter = 2;
        proof {
            assert(ent.animations@ == done.animations@);
            assert forall|s: StateID| #[trigger] ent.has_state(s) <==> s == SWORD_STATE_NORMAL by {
                assert(ent.has_state(s) == done.has_state(s));
                if s != SWORD_STATE_NORMAL {
                    assert(!done.has_state(s));
                }
            }
        }
        Entity::Animatable(ent)
    }
}

} // verus!
