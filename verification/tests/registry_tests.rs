use space_shooter::anim::AnimationConfig;
use space_shooter::geom::Vec2i;
use space_shooter::registry::{GameObject, Kind, Registry};

fn bullet_at(x: i64, y: i64) -> GameObject {
    GameObject {
        kind: Kind::Bullet,
        pos: Vec2i { x, y },
        size: Vec2i { x: 16000, y: 16000 },
        speed: 500,
        health: 1,
        anim: AnimationConfig::new(2, 3, 12),
        frame: 2,
    }
}

#[test]
fn spawn_then_get_round_trips() {
    let mut reg = Registry::new();
    let e = reg.spawn(bullet_at(1, 2));
    let got = reg.get(e).unwrap();
    assert_eq!(got.pos.x, 1);
    assert_eq!(got.pos.y, 2);
    assert!(matches!(got.kind, Kind::Bullet));
}

#[test]
fn despawned_identifier_fails_to_resolve() {
    let mut reg = Registry::new();
    let e = reg.spawn(bullet_at(0, 0));
    assert!(reg.despawn(e));
    assert!(reg.get(e).is_none());
    // a second despawn of the same identifier is a safe no-op
    assert!(!reg.despawn(e));
}

#[test]
fn stale_identifier_never_aliases_a_reused_slot() {
    let mut reg = Registry::new();
    let old = reg.spawn(bullet_at(7, 7));
    reg.despawn(old);
    // the slot is reused for a different object
    let new = reg.spawn(bullet_at(9, 9));
    assert_eq!(new.index, old.index);
    assert!(reg.get(old).is_none());
    assert_eq!(reg.get(new).unwrap().pos.x, 9);
}

#[test]
fn peek_walks_the_arena() {
    let mut reg = Registry::new();
    let a = reg.spawn(bullet_at(1, 0));
    let b = reg.spawn(bullet_at(2, 0));
    reg.despawn(a);
    assert_eq!(reg.slot_count(), 2);
    assert!(reg.peek(a.index).is_none());
    let (e, o) = reg.peek(b.index).unwrap();
    assert_eq!(e.index, b.index);
    assert_eq!(o.pos.x, 2);
}

#[test]
fn set_obj_keeps_the_identifier_valid() {
    let mut reg = Registry::new();
    let e = reg.spawn(bullet_at(0, 0));
    let mut o = reg.get(e).unwrap();
    o.pos.y = 42;
    reg.set_obj(e.index, o);
    assert_eq!(reg.get(e).unwrap().pos.y, 42);
}
