use rockscene::timers::DelayedDespawn;
use rockscene::vecmath::Mat3;
use rockscene::vecmath::Transform;
use rockscene::vecmath::Vec3;
use rockscene::vecmath::UNIT;
use rockscene::world::Entity;
use rockscene::world::World;

fn at_origin() -> Entity {
    Entity::plain(Transform::identity())
}

#[test]
fn spawn_hands_out_sequential_handles() {
    let mut w = World::new();
    assert_eq!(w.spawn(at_origin()), 0);
    assert_eq!(w.spawn(at_origin()), 1);
    assert_eq!(w.spawn(at_origin()), 2);
    assert_eq!(w.ents.len(), 3);
}

#[test]
fn despawn_clears_only_its_slot() {
    let mut w = World::new();
    let a = w.spawn(at_origin());
    let b = w.spawn(at_origin());
    w.despawn(a);
    assert!(w.ents[a].is_none());
    assert!(w.ents[b].is_some());
}

#[test]
fn set_transform_moves_the_body() {
    let mut w = World::new();
    let a = w.spawn(at_origin());
    let moved = Transform {
        translation: Vec3 { x: 5 * UNIT, y: 0, z: 0 },
        rotation: Mat3::identity(),
        scale: Vec3::splat(UNIT),
    };
    w.set_transform(a, moved);
    assert_eq!(w.ents[a].unwrap().transform.translation, Vec3 { x: 5 * UNIT, y: 0, z: 0 });
}

#[test]
fn sweep_removes_expired_and_keeps_the_rest() {
    let mut w = World::new();
    let mut shortlived = at_origin();
    shortlived.despawn = Some(DelayedDespawn::after(10));
    let mut longlived = at_origin();
    longlived.despawn = Some(DelayedDespawn::after(1000));
    let a = w.spawn(shortlived);
    let b = w.spawn(longlived);
    let c = w.spawn(at_origin());
    w.despawn_sweep(10);
    assert!(w.ents[a].is_none());
    assert!(w.ents[b].is_some());
    assert_eq!(w.ents[b].unwrap().despawn.map(|d| d.elapsed), Some(10));
    assert!(w.ents[c].is_some());
    // The cleared slot stays cleared on later sweeps.
    w.despawn_sweep(10_000);
    assert!(w.ents[a].is_none());
    assert!(w.ents[b].is_none());
    assert!(w.ents[c].is_some());
}
