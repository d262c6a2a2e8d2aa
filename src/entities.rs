//! Entities: static scenery and hazards, sprite-swap animated entities, and
//! the tagged union the game stores in its arena.
use vstd::prelude::*;
use std::collections::HashMap;
use crate::atoms::{
    chars_of, content_size_of, is_text_size, Color, Figure, Position, Size, Sprite, SpriteID,
    StateID,
};

verus! {

broadcast use vstd::std_specs::hash::group_hash_axioms;

/// An entity with one fixed sprite that never animates.
pub struct StaticEntity {
    pub figure: Figure,
    /// Damage dealt on contact; anything above zero makes it a hazard.
    pub damage: i32,
    /// Whether a weapon hit hides it.
    pub defeatable: bool,
}

impl StaticEntity {
    /// Harmless scenery showing `content` at `position`.
    pub fn new(content: String, color: Color, position: Position) -> (e: Self)
        ensures
            e.is_single_sprite(content@, color, position),
            e.damage == 0,
            !e.defeatable,
    {
        Self::with_damage(content, color, position, 0, false)
    }

    /// A hazard: contact with it deals `damage`.
    pub fn hostile(content: String, color: Color, position: Position, damage: i32) -> (e: Self)
        ensures
            e.is_single_sprite(content@, color, position),
            e.damage == damage,
            !e.defeatable,
    {
        Self::with_damage(content, color, position, damage, false)
    }

    /// A hazard that a weapon hit removes.
    pub fn hostile_defeatable(content: String, color: Color, position: Position, damage: i32) -> (e:
        Self)
        ensures
            e.is_single_sprite(content@, color, position),
            e.damage == damage,
            e.defeatable,
    {
        Self::with_damage(content, color, position, damage, true)
    }

    fn with_damage(
        content: String,
        color: Color,
        position: Position,
        damage: i32,
        defeatable: bool,
    ) -> (e: Self)
        ensures
            e.is_single_sprite(content@, color, position),
            e.damage == damage,
            e.defeatable == defeatable,
    {
        Self::from_chars(chars_of(content.as_str()), color, position, damage, defeatable)
    }

    /// An entity showing the text block `content` at `position`.
    pub fn from_chars(
        content: Vec<char>,
        color: Color,
        position: Position,
        damage: i32,
        defeatable: bool,
    ) -> (e: Self)
        ensures
            e.is_single_sprite(content@, color, position),
            e.damage == damage,
            e.defeatable == defeatable,
    {
        let size = content_size_of(&content);
        let sprite = Sprite { color, content, offset: Position::origin(), size, active: true };
        let mut sprites: Vec<Sprite> = Vec::new();
        sprites.push(sprite);
        Self { figure: Figure { sprites, position, visible: true }, damage, defeatable }
    }

    /// A visible figure at `position` whose only sprite is the active text
    /// block `content`, at the figure's origin and sized to fit.
    pub open spec fn is_single_sprite(&self, content: Seq<char>, color: Color, position: Position) -> bool {
        &&& self.figure.position == position
        &&& self.figure.visible
        &&& self.figure.sprites@.len() == 1
        &&& self.figure.sprites@[0].content@ == content
        &&& self.figure.sprites@[0].color == color
        &&& self.figure.sprites@[0].offset == (Position { x: 0, y: 0 })
        &&& is_text_size(self.figure.sprites@[0].size, content)
        &&& self.figure.sprites@[0].active
    }
}

/// A set of sprites shown together, held for `duration` animation ticks.
pub struct AnimationPoint {
    /// Ticks to hold this point; `ANIMATE_FOREVER` holds it until the state changes.
    pub duration: u32,
    pub enabled_sprites: Vec<SpriteID>,
}

impl AnimationPoint {
    pub fn new(duration: u32, sprite_ids: Vec<SpriteID>) -> (p: Self)
        ensures
            p.duration == duration,
            p.enabled_sprites == sprite_ids,
    {
        Self { duration, enabled_sprites: sprite_ids }
    }
}

/// Duration that holds an animation point until the next state change.
pub const ANIMATE_FOREVER: u32 = 0;

/// Whether every sprite index of `p` is below `n`.
pub open spec fn point_refs_valid(p: AnimationPoint, n: nat) -> bool {
    forall|m: int| 0 <= m < p.enabled_sprites@.len() ==> #[trigger] p.enabled_sprites@[m] < n
}

/// A non-empty list of points whose sprite indices are below `n`.
pub open spec fn points_valid(pts: Seq<AnimationPoint>, n: nat) -> bool {
    &&& pts.len() > 0
    &&& forall|k: int| 0 <= k < pts.len() ==> point_refs_valid(#[trigger] pts[k], n)
}

/// `sprites` with the sprite at `k`, if there is one, set to `flag`.
pub open spec fn set_active_at(sprites: Seq<Sprite>, k: int, flag: bool) -> Seq<Sprite> {
    if 0 <= k < sprites.len() {
        sprites.update(k, Sprite { active: flag, ..sprites[k] })
    } else {
        sprites
    }
}

/// `sprites` with each sprite listed in `ids` set to `flag`.
pub open spec fn with_active(sprites: Seq<Sprite>, ids: Seq<SpriteID>, flag: bool) -> Seq<Sprite>
    decreases ids.len(),
{
    if ids.len() == 0 {
        sprites
    } else {
        set_active_at(with_active(sprites, ids.drop_last(), flag), ids.last() as int, flag)
    }
}

pub proof fn lemma_with_active_len(sprites: Seq<Sprite>, ids: Seq<SpriteID>, flag: bool)
    ensures
        with_active(sprites, ids, flag).len() == sprites.len(),
    decreases ids.len(),
{
    if ids.len() > 0 {
        lemma_with_active_len(sprites, ids.drop_last(), flag);
    }
}

/// Two sprite lists that differ at most in their sprites' `active` flags.
pub open spec fn same_but_active(a: Seq<Sprite>, b: Seq<Sprite>) -> bool {
    &&& a.len() == b.len()
    &&& forall|k: int|
        0 <= k < a.len() ==> (#[trigger] a[k]).content == b[k].content && a[k].color == b[k].color
            && a[k].offset == b[k].offset && a[k].size == b[k].size
}

pub proof fn lemma_with_active_frame(sprites: Seq<Sprite>, ids: Seq<SpriteID>, flag: bool)
    ensures
        same_but_active(sprites, with_active(sprites, ids, flag)),
    decreases ids.len(),
{
    if ids.len() > 0 {
        lemma_with_active_frame(sprites, ids.drop_last(), flag);
    }
}

/// An entity that flips between sprites: each logical state has a list of
/// animation points, and a cursor walks that list as ticks go by.
pub struct AnimatableEntity {
    pub figure: Figure,
    /// E.g. standing, crouching, jumping.
    pub current_state: StateID,
    /// Index in the current state's list of points.
    pub current_animation_point: usize,
    pub animations: HashMap<StateID, Vec<AnimationPoint>>,
    /// Ticks left before the current point gives way to the next.
    pub animation_call_counter: u32,
}

impl AnimatableEntity {
    /// The animation points of state `s`.
    pub open spec fn points(&self, s: StateID) -> Seq<AnimationPoint> {
        self.animations@[s]@
    }

    pub open spec fn has_state(&self, s: StateID) -> bool {
        self.animations@.contains_key(s)
    }

    /// The point the cursor is on.
    pub open spec fn current_point(&self) -> AnimationPoint {
        self.points(self.current_state)[self.current_animation_point as int]
    }

    /// Every state has points, every point names existing sprites, and the
    /// cursor lies in the current state's list (at zero while that list is
    /// empty).
    pub open spec fn wf(&self) -> bool {
        &&& forall|s: StateID| #[trigger]
            self.animations@.contains_key(s) ==> points_valid(
                self.animations@[s]@,
                self.figure.sprites@.len(),
            )
        &&& self.has_state(self.current_state) ==> self.current_animation_point < self.points(
            self.current_state,
        ).len()
        &&& !self.has_state(self.current_state) ==> self.current_animation_point == 0
    }

    /// Whether every point of every state shows at least one sprite.
    pub open spec fn all_points_show(&self) -> bool {
        forall|s: StateID, k: int|
            self.has_state(s) && 0 <= k < self.points(s).len() ==> (#[trigger] self.points(
                s,
            )[k]).enabled_sprites@.len() > 0
    }

    /// Whether an `animate` call has anything to work on.
    pub open spec fn is_animating(&self) -> bool {
        self.figure.sprites@.len() > 0 && !self.animations@.is_empty()
    }

    /// What `animate(new_state)` needs: the states it reads have points.
    pub open spec fn can_animate(&self, new_state: Option<StateID>) -> bool {
        &&& self.wf()
        &&& self.is_animating() ==> self.has_state(self.current_state)
        &&& new_state matches Some(s) ==> self.has_state(s)
    }

    /// Everything but the sprites' `active` flags, the state, the cursor and
    /// the counter is as in `old`.
    pub open spec fn frame(&self, old: Self) -> bool {
        &&& self.figure.position == old.figure.position
        &&& self.figure.visible == old.figure.visible
        &&& self.animations@ == old.animations@
        &&& same_but_active(old.figure.sprites@, self.figure.sprites@)
    }

    pub fn new(position: Position) -> (e: Self)
        ensures
            e.figure.sprites@.len() == 0,
            e.figure.position == position,
            e.figure.visible,
            e.current_state == 0,
            e.current_animation_point == 0,
            e.animations@.is_empty(),
            e.animation_call_counter == 0,
            e.wf(),
    {
        Self {
            figure: Figure { sprites: Vec::new(), position, visible: true },
            current_state: 0,
            current_animation_point: 0,
            animations: HashMap::new(),
            animation_call_counter: 0,
        }
    }

    /// Appends `sprite`, switched off, and returns its index.
    pub fn add_sprite(&mut self, sprite: Sprite) -> (id: SpriteID)
        requires
            old(self).wf(),
        ensures
            id == old(self).figure.sprites@.len(),
            final(self).figure.sprites@ == old(self).figure.sprites@.push(
                Sprite { active: false, ..sprite },
            ),
            final(self).figure.position == old(self).figure.position,
            final(self).figure.visible == old(self).figure.visible,
            final(self).current_state == old(self).current_state,
            final(self).current_animation_point == old(self).current_animation_point,
            final(self).animations@ == old(self).animations@,
            final(self).animation_call_counter == old(self).animation_call_counter,
            final(self).wf(),
    {
        let mut sprite = sprite;
        sprite.active = false;
        self.figure.sprites.push(sprite);
        let id = self.figure.sprites.len() - 1;
        proof {
            let n = self.figure.sprites@.len();
            assert forall|s: StateID| #[trigger] self.animations@.contains_key(s) implies points_valid(
                self.animations@[s]@,
                n,
            ) by {
                let pts = self.animations@[s]@;
                assert(points_valid(pts, (n - 1) as nat));
                assert forall|k: int| 0 <= k < pts.len() implies point_refs_valid(
                    #[trigger] pts[k],
                    n,
                ) by {
                    assert(point_refs_valid(pts[k], (n - 1) as nat));
                }
            }
        }
        id
    }

    /// Appends a point showing `sprite_ids` for `duration` ticks to the list
    /// of state `state_id`.
    pub fn add_animation_point(
        &mut self,
        state_id: StateID,
        sprite_ids: Vec<SpriteID>,
        duration: u32,
    )
        requires
            old(self).wf(),
            forall|m: int|
                0 <= m < sprite_ids@.len() ==> #[trigger] sprite_ids@[m]
                    < old(self).figure.sprites@.len(),
        ensures
            final(self).animations@ == old(self).animations@.insert(
                state_id,
                final(self).animations@[state_id],
            ),
            final(self).points(state_id) == (if old(self).has_state(state_id) {
                old(self).points(state_id)
            } else {
                Seq::empty()
            }).push(AnimationPoint { duration, enabled_sprites: sprite_ids }),
            final(self).figure == old(self).figure,
            final(self).current_state == old(self).current_state,
            final(self).current_animation_point == old(self).current_animation_point,
            final(self).animation_call_counter == old(self).animation_call_counter,
            final(self).wf(),
            old(self).all_points_show() && sprite_ids@.len() > 0 ==> final(self).all_points_show(),
    {
        let ghost old_pts = if self.has_state(state_id) {
            self.points(state_id)
        } else {
            Seq::empty()
        };
        let mut pts = match self.animations.remove(&state_id) {
            Some(v) => v,
            None => Vec::new(),
        };
        assert(pts@ == old_pts);
        pts.push(AnimationPoint::new(duration, sprite_ids));
        self.animations.insert(state_id, pts);
        proof {
            let n = self.figure.sprites@.len();
            let new_pts = self.animations@[state_id]@;
            assert(point_refs_valid(new_pts.last(), n));
            assert forall|k: int| 0 <= k < new_pts.len() implies point_refs_valid(
                #[trigger] new_pts[k],
                n,
            ) by {
                if k < new_pts.len() - 1 {
                    assert(new_pts[k] == old_pts[k]);
                }
            }
            assert forall|s: StateID| #[trigger] self.animations@.contains_key(s) implies points_valid(
                self.animations@[s]@,
                n,
            ) by {
                if s != state_id {
                    assert(old(self).animations@.contains_key(s));
                }
            }
            if old(self).all_points_show() && new_pts.last().enabled_sprites@.len() > 0 {
                assert forall|s: StateID, k: int|
                    self.has_state(s) && 0 <= k < self.points(s).len() implies (#[trigger] self.points(
                    s,
                )[k]).enabled_sprites@.len() > 0 by {
                    if s == state_id {
                        if k < new_pts.len() - 1 {
                            assert(new_pts[k] == old_pts[k]);
                            assert(old(self).points(s)[k] == old_pts[k]);
                        }
                    } else {
                        assert(old(self).has_state(s));
                        assert(self.points(s) == old(self).points(s));
                    }
                }
            }
        }
    }

    pub fn get_state(&self) -> (s: StateID)
        ensures
            s == self.current_state,
    {
        self.current_state
    }

    /// Index of the current animation point in the current state's list.
    pub fn get_current_animation_point(&self) -> (p: usize)
        ensures
            p == self.current_animation_point,
    {
        self.current_animation_point
    }

    fn set_current_animation_point_active(&mut self, active: bool)
        requires
            old(self).wf(),
            old(self).has_state(old(self).current_state),
        ensures
            final(self).figure.sprites@ == with_active(
                old(self).figure.sprites@,
                old(self).current_point().enabled_sprites@,
                active,
            ),
            final(self).figure.position == old(self).figure.position,
            final(self).figure.visible == old(self).figure.visible,
            final(self).current_state == old(self).current_state,
            final(self).current_animation_point == old(self).current_animation_point,
            final(self).animations@ == old(self).animations@,
            final(self).animation_call_counter == old(self).animation_call_counter,
            final(self).wf(),
    {
        let pts = self.animations.get(&self.current_state).unwrap();
        let point = &pts[self.current_animation_point];
        let ids = &point.enabled_sprites;
        let ghost n = self.figure.sprites@.len();
        let ghost orig = self.figure.sprites@;
        assert(points_valid(pts@, n));
        assert(point_refs_valid(pts@[self.current_animation_point as int], n));
        assert(*point == old(self).current_point());
        let mut i: usize = 0;
        while i < ids.len()
            invariant
                i <= ids@.len(),
                point_refs_valid(*point, n),
                ids == &point.enabled_sprites,
                self.figure.sprites@.len() == n,
                self.figure.sprites@ == with_active(orig, ids@.take(i as int), active),
                self.figure.position == old(self).figure.position,
                self.figure.visible == old(self).figure.visible,
                self.current_state == old(self).current_state,
                self.current_animation_point == old(self).current_animation_point,
                self.animations@ == old(self).animations@,
                self.animation_call_counter == old(self).animation_call_counter,
            decreases ids.len() - i,
        {
            proof {
                assert(ids@.take(i as int + 1).drop_last() =~= ids@.take(i as int));
            }
            let k = ids[i];
            self.figure.sprites[k].active = active;
            i += 1;
        }
        assert(ids@.take(ids@.len() as int) =~= ids@);
        proof {
            lemma_with_active_len(orig, ids@, active);
        }
    }

    /// Index of the point after the cursor, wrapping to the first.
    pub open spec fn next_point_index(&self) -> usize {
        if self.current_animation_point + 1 >= self.points(self.current_state).len() {
            0
        } else {
            (self.current_animation_point + 1) as usize
        }
    }

    /// `new` shows point `p` of state `s`: the old point's sprites were
    /// switched off, then the new point's sprites on, and the counter holds
    /// the new point's duration.
    pub open spec fn switched_to(old: Self, new: Self, s: StateID, p: usize) -> bool {
        &&& new.current_state == s
        &&& new.current_animation_point == p
        &&& new.animation_call_counter == new.current_point().duration
        &&& new.figure.sprites@ == with_active(
            old.shown_off(),
            new.current_point().enabled_sprites@,
            true,
        )
        &&& new.frame(old)
    }

    /// The sprites with the current point's sprites switched off (all of
    /// them as they are when the current state has no points).
    pub open spec fn shown_off(&self) -> Seq<Sprite> {
        if self.has_state(self.current_state) {
            with_active(self.figure.sprites@, self.current_point().enabled_sprites@, false)
        } else {
            self.figure.sprites@
        }
    }

    /// The effect of `animate(new_state)`.
    ///
    /// Without a new state, a running counter ticks down; at zero the cursor
    /// moves to the next point, wrapping past the end, unless the point is held
    /// forever. With a new state different from the current one the cursor
    /// goes to that state's first point; asking for the current state changes
    /// nothing.
    pub open spec fn animate_post(old: Self, new: Self, new_state: Option<StateID>) -> bool {
        match new_state {
            None => if !old.is_animating() {
                new == old
            } else if old.animation_call_counter > 0 {
                new == (AnimatableEntity {
                    animation_call_counter: (old.animation_call_counter - 1) as u32,
                    ..old
                })
            } else if old.current_point().duration == ANIMATE_FOREVER {
                new == old
            } else {
                Self::switched_to(old, new, old.current_state, old.next_point_index())
            },
            Some(s) => if s == old.current_state {
                new == old
            } else {
                Self::switched_to(old, new, s, 0)
            },
        }
    }

    fn get_current_animation_point_duration(&self) -> (d: u32)
        requires
            self.wf(),
            self.has_state(self.current_state),
        ensures
            d == self.current_point().duration,
    {
        let pts = self.animations.get(&self.current_state).unwrap();
        pts[self.current_animation_point].duration
    }

    fn next_animation_point(&mut self)
        requires
            old(self).wf(),
            old(self).has_state(old(self).current_state),
        ensures
            *final(self) == (AnimatableEntity {
                current_animation_point: old(self).next_point_index(),
                ..*old(self)
            }),
            final(self).wf(),
    {
        let len = self.animations.get(&self.current_state).unwrap().len();
        if self.current_animation_point + 1 >= len {
            self.current_animation_point = 0;
        } else {
            self.current_animation_point += 1;
        }
    }

    /// Advances the animation by one tick, or switches to `new_state`.
    pub fn animate(&mut self, new_state: Option<StateID>)
        requires
            old(self).can_animate(new_state),
        ensures
            final(self).can_animate(None),
            Self::animate_post(*old(self), *final(self), new_state),
    {
        match new_state {
            None => {
                if self.animations.is_empty() || self.figure.sprites.len() == 0 {
                    return;
                }
                if self.animation_call_counter > 0 {
                    self.animation_call_counter -= 1;
                    return;
                }
                let duration = self.get_current_animation_point_duration();
                if duration == ANIMATE_FOREVER {
                    return;
                }
            },
            Some(s) => {
                if s == self.current_state {
                    return;
                }
            },
        }
        let ghost before = *self;
        if self.animations.contains_key(&self.current_state) {
            self.set_current_animation_point_active(false);
            proof {
                lemma_with_active_len(before.figure.sprites@, before.current_point().enabled_sprites@, false);
                lemma_with_active_frame(before.figure.sprites@, before.current_point().enabled_sprites@, false);
            }
        }
        match new_state {
            None => self.next_animation_point(),
            Some(s) => {
                self.current_state = s;
                self.current_animation_point = 0;
            },
        }
        let ghost mid = *self;
        self.animation_call_counter = self.get_current_animation_point_duration();
        self.set_current_animation_point_active(true);
        proof {
            lemma_with_active_frame(mid.figure.sprites@, self.current_point().enabled_sprites@, true);
        }
    }

    /// Size of the first sprite of the current point: the entity's bounding
    /// size in its current pose.
    pub open spec fn pose_size(&self) -> Size {
        self.figure.sprites@[self.current_point().enabled_sprites@[0] as int].size
    }

    /// Whether the current point shows at least one sprite.
    pub open spec fn has_pose(&self) -> bool {
        &&& self.wf()
        &&& self.has_state(self.current_state)
        &&& self.current_point().enabled_sprites@.len() > 0
    }

    pub fn get_size(&self) -> (size: Size)
        requires
            self.has_pose(),
        ensures
            size == self.pose_size(),
    {
        let pts = self.animations.get(&self.current_state).unwrap();
        let point = &pts[self.current_animation_point];
        assert(points_valid(pts@, self.figure.sprites@.len()));
        assert(point_refs_valid(*point, self.figure.sprites@.len()));
        let k = point.enabled_sprites[0];
        self.figure.sprites[k].size
    }
}

/// A tick on the last point of a state, once the counter has run out and
/// unless that point is held forever, brings the cursor back to the state's
/// first point.
pub proof fn lemma_animation_wraps(old: AnimatableEntity, new: AnimatableEntity)
    requires
        old.can_animate(None),
        old.is_animating(),
        old.animation_call_counter == 0,
        old.current_point().duration != ANIMATE_FOREVER,
        old.current_animation_point + 1 == old.points(old.current_state).len(),
        AnimatableEntity::animate_post(old, new, None),
    ensures
        new.current_state == old.current_state,
        new.current_animation_point == 0,
{
}

/// Whether each entity of `es` is the one before it after one
/// `animate(None)` tick.
#[verifier::opaque]
pub open spec fn is_tick_run(es: Seq<AnimatableEntity>) -> bool {
    forall|j: int|
        0 <= j < es.len() - 1 ==> AnimatableEntity::animate_post(#[trigger] es[j], es[j + 1], None)
}

/// Whether `e` has just entered a point of its current state, every point of
/// which is held `d` ticks, with `d` not the forever mark.
pub open spec fn fresh_on_uniform_point(e: AnimatableEntity, d: u32) -> bool {
    &&& e.can_animate(None)
    &&& e.is_animating()
    &&& d != ANIMATE_FOREVER
    &&& e.animation_call_counter == d
    &&& forall|k: int|
        0 <= k < e.points(e.current_state).len() ==> (#[trigger] e.points(e.current_state)[k]).duration
            == d
}

proof fn lemma_hold_prefix(es: Seq<AnimatableEntity>, d: u32, t: int)
    requires
        is_tick_run(es),
        fresh_on_uniform_point(es[0], d),
        0 <= t <= d,
        t < es.len(),
    ensures
        es[t].current_state == es[0].current_state,
        es[t].current_animation_point == es[0].current_animation_point,
        es[t].animation_call_counter == d - t,
        es[t].animations@ == es[0].animations@,
        es[t].figure.sprites@.len() == es[0].figure.sprites@.len(),
    decreases t,
{
    reveal(is_tick_run);
    if t > 0 {
        lemma_hold_prefix(es, d, t - 1);
        assert(AnimatableEntity::animate_post(es[t - 1], es[t], None));
        assert(es[t - 1].is_animating());
    }
}

/// A point held `d` ticks gives way to the next one, wrapping past the last,
/// on the tick after those `d`: `d + 1` ticks after entering a point the
/// entity has just entered the next one.
pub proof fn lemma_point_held(es: Seq<AnimatableEntity>, d: u32)
    requires
        is_tick_run(es),
        fresh_on_uniform_point(es[0], d),
        es.len() == d + 2,
    ensures
        es[d + 1].current_state == es[0].current_state,
        es[d + 1].current_animation_point == es[0].next_point_index(),
        es[d + 1].animations@ == es[0].animations@,
        fresh_on_uniform_point(es[d + 1], d),
{
    reveal(is_tick_run);
    lemma_hold_prefix(es, d, d as int);
    let a = es[d as int];
    let b = es[d + 1];
    assert(AnimatableEntity::animate_post(a, b, None));
    assert(a.is_animating());
    assert(a.points(a.current_state) == es[0].points(es[0].current_state));
    assert(a.current_point().duration == d);
    assert(b.current_point().duration == d);
    assert(b.figure.sprites@.len() == a.figure.sprites@.len());
    assert(b.is_animating());
    assert forall|s: StateID| #[trigger] b.animations@.contains_key(s) implies points_valid(
        b.animations@[s]@,
        b.figure.sprites@.len(),
    ) by {
        assert(a.animations@.contains_key(s));
    }
}

proof fn lemma_sub_run(es: Seq<AnimatableEntity>, a: int, b: int)
    requires
        is_tick_run(es),
        0 <= a <= b <= es.len(),
    ensures
        is_tick_run(es.subrange(a, b)),
{
    reveal(is_tick_run);
    let sub = es.subrange(a, b);
    assert forall|j: int| 0 <= j < sub.len() - 1 implies AnimatableEntity::animate_post(
        #[trigger] sub[j],
        sub[j + 1],
        None,
    ) by {
        assert(sub[j] == es[a + j]);
        assert(sub[j + 1] == es[a + j + 1]);
        assert(AnimatableEntity::animate_post(es[a + j], es[a + j + 1], None));
    }
}

/// Index of the tick on which round `r` of `m` ticks starts.
#[verifier::opaque]
spec fn round_start(r: nat, m: nat) -> nat {
    r * m
}

proof fn lemma_round_start(r: nat, n: nat, m: nat)
    requires
        r <= n,
    ensures
        round_start(0, m) == 0,
        round_start(r, m) <= round_start(n, m),
        r > 0 ==> round_start((r - 1) as nat, m) + m == round_start(r, m),
{
    reveal(round_start);
    assert(r * m <= n * m) by (nonlinear_arith)
        requires
            r <= n,
    ;
    if r > 0 {
        assert((r - 1) * m + m == r * m) by (nonlinear_arith)
            requires
                r > 0,
        ;
    }
}

proof fn lemma_rounds(es: Seq<AnimatableEntity>, d: u32, n: nat, r: nat)
    requires
        is_tick_run(es),
        fresh_on_uniform_point(es[0], d),
        es[0].current_animation_point == 0,
        n == es[0].points(es[0].current_state).len(),
        es.len() == round_start(n, (d + 1) as nat) + 1,
        r <= n,
    ensures
        round_start(r, (d + 1) as nat) < es.len(),
        es[round_start(r, (d + 1) as nat) as int].current_state == es[0].current_state,
        es[round_start(r, (d + 1) as nat) as int].animations@ == es[0].animations@,
        fresh_on_uniform_point(es[round_start(r, (d + 1) as nat) as int], d),
        es[round_start(r, (d + 1) as nat) as int].current_animation_point == if r < n {
            r
        } else {
            0
        },
    decreases r,
{
    let m: nat = (d + 1) as nat;
    lemma_round_start(r, n, m);
    assert(es[0].animations@[es[0].current_state].len() == n);
    if r > 0 {
        lemma_rounds(es, d, n, (r - 1) as nat);
        let base = round_start((r - 1) as nat, m);
        let sub = es.subrange(base as int, base + d + 2);
        lemma_sub_run(es, base as int, base + d + 2);
        assert(sub[0] == es[base as int]);
        assert(es[base as int].points(es[base as int].current_state).len() == n);
        lemma_point_held(sub, d);
        assert(sub[d + 1] == es[(base + m) as int]);
    }
}

/// A state of `n` points, each held `d` ticks, plays its whole cycle in
/// `n * (d + 1)` ticks from its first point and comes back to that point.
pub proof fn lemma_animation_cycle(es: Seq<AnimatableEntity>, d: u32, n: nat)
    requires
        is_tick_run(es),
        fresh_on_uniform_point(es[0], d),
        es[0].current_animation_point == 0,
        n == es[0].points(es[0].current_state).len(),
        es.len() == n * (d + 1) + 1,
    ensures
        es[es.len() - 1].current_state == es[0].current_state,
        es[es.len() - 1].current_animation_point == 0,
        es[es.len() - 1].animation_call_counter == d,
{
    reveal(round_start);
    lemma_rounds(es, d, n, n);
}

/// Switching to the current state changes nothing; switching to another
/// state puts the cursor on that state's first point.
pub proof fn lemma_set_state_cursor(old: AnimatableEntity, new: AnimatableEntity, s: StateID)
    requires
        old.can_animate(Some(s)),
        AnimatableEntity::animate_post(old, new, Some(s)),
    ensures
        s == old.current_state ==> new == old,
        s != old.current_state ==> {
            &&& new.current_state == s
            &&& new.current_animation_point == 0
            &&& new.animation_call_counter == old.points(s)[0].duration
            &&& new.figure.sprites@ == with_active(
                old.shown_off(),
                old.points(s)[0].enabled_sprites@,
                true,
            )
        },
{
}

/// Any entity the game can hold.
pub enum Entity {
    Static(StaticEntity),
    Animatable(AnimatableEntity),
}

impl Entity {
    pub open spec fn figure(&self) -> Figure {
        match self {
            Entity::Static(e) => e.figure,
            Entity::Animatable(e) => e.figure,
        }
    }

    /// The same entity showing figure `f`.
    pub open spec fn with_figure(self, f: Figure) -> Entity {
        match self {
            Entity::Static(e) => Entity::Static(StaticEntity { figure: f, ..e }),
            Entity::Animatable(e) => Entity::Animatable(AnimatableEntity { figure: f, ..e }),
        }
    }

    /// Logical state; always zero for a static entity.
    pub open spec fn state(&self) -> StateID {
        match self {
            Entity::Static(_) => 0,
            Entity::Animatable(e) => e.current_state,
        }
    }

    /// Contact damage; zero for an animated entity.
    pub open spec fn damage(&self) -> i32 {
        match self {
            Entity::Static(e) => e.damage,
            Entity::Animatable(_) => 0,
        }
    }

    pub open spec fn defeatable(&self) -> bool {
        match self {
            Entity::Static(e) => e.defeatable,
            Entity::Animatable(_) => false,
        }
    }

    /// Bounding size of what the entity currently shows.
    pub open spec fn size(&self) -> Size {
        match self {
            Entity::Static(e) => e.figure.sprites@[0].size,
            Entity::Animatable(e) => e.pose_size(),
        }
    }

    /// Whether `size` is defined: a static entity has a sprite, an animated
    /// one a pose.
    pub open spec fn has_size(&self) -> bool {
        match self {
            Entity::Static(e) => e.figure.sprites@.len() > 0,
            Entity::Animatable(e) => e.has_pose(),
        }
    }

    /// Whether `animate(new_state)` may run on this entity.
    pub open spec fn can_animate(&self, new_state: Option<StateID>) -> bool {
        match self {
            Entity::Static(_) => true,
            Entity::Animatable(e) => e.can_animate(new_state),
        }
    }

    /// `new` is `old` after one animation step towards `new_state`.
    pub open spec fn animate_post(old: Entity, new: Entity, new_state: Option<StateID>) -> bool {
        match old {
            Entity::Static(_) => new == old,
            Entity::Animatable(a) => new is Animatable && AnimatableEntity::animate_post(
                a,
                new->Animatable_0,
                new_state,
            ),
        }
    }

    pub fn get_figure(&self) -> (f: &Figure)
        ensures
            *f == self.figure(),
    {
        match self {
            Entity::Static(e) => &e.figure,
            Entity::Animatable(e) => &e.figure,
        }
    }

    pub fn get_figure_mut(&mut self) -> (f: &mut Figure)
        ensures
            *f == old(self).figure(),
            *final(self) == old(self).with_figure(*final(f)),
    {
        match self {
            Entity::Static(e) => &mut e.figure,
            Entity::Animatable(e) => &mut e.figure,
        }
    }

    /// Advances the entity's animation by one tick; nothing for a static one.
    pub fn animate(&mut self)
        requires
            old(self).can_animate(None),
        ensures
            Self::animate_post(*old(self), *final(self), None),
            final(self).can_animate(None),
    {
        match self {
            Entity::Static(_) => {},
            Entity::Animatable(e) => e.animate(None),
        }
    }

    /// Switches to `state_id`; nothing if it is the current state, or for a
    /// static entity.
    pub fn set_state(&mut self, state_id: StateID)
        requires
            old(self).can_animate(Some(state_id)),
        ensures
            Self::animate_post(*old(self), *final(self), Some(state_id)),
            final(self).can_animate(None),
    {
        match self {
            Entity::Static(_) => {},
            Entity::Animatable(e) => e.animate(Some(state_id)),
        }
    }

    pub fn get_state(&self) -> (s: StateID)
        ensures
            s == self.state(),
    {
        match self {
            Entity::Static(_) => 0,
            Entity::Animatable(e) => e.current_state,
        }
    }

    pub fn get_size(&self) -> (size: Size)
        requires
            self.has_size(),
        ensures
            size == self.size(),
    {
        match self {
            Entity::Static(e) => e.figure.sprites[0].size,
            Entity::Animatable(e) => e.get_size(),
        }
    }

    pub fn get_damage(&self) -> (d: i32)
        ensures
            d == self.damage(),
    {
        match self {
            Entity::Static(e) => e.damage,
            Entity::Animatable(_) => 0,
        }
    }

    pub fn is_defeatable(&self) -> (r: bool)
        ensures
            r == self.defeatable(),
    {
        match self {
            Entity::Static(e) => e.defeatable,
            Entity::Animatable(_) => false,
        }
    }
}

} // verus!
