use cyberspace_emissary::atoms::{Position, Sprite};
use cyberspace_emissary::entities::{
    AnimatableEntity, AnimationPoint, Entity, StaticEntity, ANIMATE_FOREVER,
};

const S: usize = 5;

fn three_point_entity(duration: u32) -> AnimatableEntity {
    let mut e = AnimatableEntity::new(Position::origin());
    let rest = e.add_sprite(Sprite::new());
    let a = e.add_sprite(Sprite::new());
    let b = e.add_sprite(Sprite::new());
    let c = e.add_sprite(Sprite::new());
    e.add_animation_point(0, vec![rest], ANIMATE_FOREVER);
    e.add_animation_point(S, vec![a], duration);
    e.add_animation_point(S, vec![b], duration);
    e.add_animation_point(S, vec![c], duration);
    e
}

#[test]
fn cursor_wraps_after_last_point() {
    let mut e = three_point_entity(1);
    e.animate(Some(S));
    assert_eq!(e.get_state(), S);
    assert_eq!(e.get_current_animation_point(), 0);
    assert!(e.figure.sprites[1].active);
    let mut seen = vec![];
    for _ in 0..6 {
        e.animate(None);
        seen.push(e.get_current_animation_point());
    }
    // Each point is held for one tick, then the next one comes.
    assert_eq!(seen, vec![0, 1, 1, 2, 2, 0]);
    assert!(e.figure.sprites[1].active);
    assert!(!e.figure.sprites[2].active);
    assert!(!e.figure.sprites[3].active);
}

#[test]
fn forever_points_hold() {
    let mut e = three_point_entity(ANIMATE_FOREVER);
    e.animate(Some(S));
    for _ in 0..3 {
        e.animate(None);
    }
    assert_eq!(e.get_current_animation_point(), 0);
    assert!(e.figure.sprites[1].active);
}

#[test]
fn set_state_same_is_noop_other_resets() {
    let mut e = three_point_entity(1);
    e.animate(Some(S));
    e.animate(None);
    e.animate(None);
    assert_eq!(e.get_current_animation_point(), 1);
    let mut ent = Entity::Animatable(e);
    ent.set_state(S);
    match &ent {
        Entity::Animatable(a) => {
            assert_eq!(a.get_current_animation_point(), 1);
            assert_eq!(a.animation_call_counter, 1);
        }
        Entity::Static(_) => unreachable!(),
    }
    ent.set_state(0);
    assert_eq!(ent.get_state(), 0);
    ent.set_state(S);
    match &ent {
        Entity::Animatable(a) => {
            assert_eq!(a.get_current_animation_point(), 0);
            assert!(a.figure.sprites[1].active);
            assert!(!a.figure.sprites[2].active);
        }
        Entity::Static(_) => unreachable!(),
    }
}

#[test]
fn switching_state_swaps_sprites() {
    let mut e = three_point_entity(2);
    e.animate(Some(S));
    assert!(!e.figure.sprites[0].active);
    e.animate(Some(0));
    assert!(e.figure.sprites[0].active);
    assert!(!e.figure.sprites[1].active);
    assert_eq!(e.animation_call_counter, ANIMATE_FOREVER);
}

#[test]
fn animation_point_holds_its_fields() {
    let p = AnimationPoint::new(4, vec![1, 2]);
    assert_eq!(p.duration, 4);
    assert_eq!(p.enabled_sprites, vec![1, 2]);
}

#[test]
fn added_sprites_start_inactive() {
    let mut e = AnimatableEntity::new(Position::new(2, 3));
    let id = e.add_sprite(Sprite::new());
    assert_eq!(id, 0);
    assert!(!e.figure.sprites[0].active);
    assert_eq!(e.figure.position, Position::new(2, 3));
}

#[test]
fn static_entities_keep_still() {
    let mut ent = Entity::Static(StaticEntity::new(
        String::from("ab\nc"),
        cyberspace_emissary::atoms::Color::white(),
        Position::new(1, 1),
    ));
    ent.animate();
    ent.set_state(3);
    assert_eq!(ent.get_state(), 0);
    assert_eq!(ent.get_damage(), 0);
    assert!(!ent.is_defeatable());
    assert_eq!(ent.get_size().width, 2);
    assert_eq!(ent.get_size().height, 2);
}

#[test]
fn hostile_entities_carry_damage() {
    let white = cyberspace_emissary::atoms::Color::white();
    let spike = Entity::Static(StaticEntity::hostile(String::from("^"), white, Position::origin(), 3));
    assert_eq!(spike.get_damage(), 3);
    assert!(!spike.is_defeatable());
    let enemy = Entity::Static(StaticEntity::hostile_defeatable(
        String::from("E"),
        white,
        Position::origin(),
        1,
    ));
    assert_eq!(enemy.get_damage(), 1);
    assert!(enemy.is_defeatable());
}

#[test]
fn switching_state_without_sprites_resets_cursor() {
    let mut e = AnimatableEntity::new(Position::origin());
    e.add_animation_point(0, vec![], 3);
    e.add_animation_point(S, vec![], 5);
    e.add_animation_point(S, vec![], 5);
    e.animate(Some(S));
    assert_eq!(e.get_state(), S);
    assert_eq!(e.get_current_animation_point(), 0);
    assert_eq!(e.animation_call_counter, 5);
}
