use rockscene::collision::ContactPoint;
use rockscene::collision::Contacts;
use rockscene::collision::Manifold;
use rockscene::game::BlenderAssets;
use rockscene::game::Game;
use rockscene::game::State;
use rockscene::game::AMMO_LIFETIME_TICKS;
use rockscene::game::FIRE_INTERVAL_TICKS;
use rockscene::timers::DelayedDespawn;
use rockscene::timers::Trigger;
use rockscene::vecmath::Mat3;
use rockscene::vecmath::Transform;
use rockscene::vecmath::Vec3;
use rockscene::vecmath::UNIT;
use rockscene::world::Entity;

fn assets() -> BlenderAssets {
    BlenderAssets { ball: 1, spike: 2, rock: 3, ammo: 4 }
}

#[test]
fn nothing_happens_while_loading() {
    let mut g = Game::new(assets());
    for _ in 0..100 {
        let r = g.frame(FIRE_INTERVAL_TICKS * 10, false, &vec![]);
        assert!(!r.fired);
        assert_eq!(r.markers, 0);
        assert_eq!(g.state, State::Load);
        assert!(g.trigger.is_none());
        assert_eq!(g.world.ents.len(), 0);
    }
}

#[test]
fn stale_events_ignored_while_loading_and_playing() {
    let mut g = Game::new(assets());
    let stale = vec![Contacts {
        entity1: 0,
        entity2: 0,
        during_previous_frame: true,
        manifolds: vec![],
    }];
    let r = g.frame(1, false, &stale);
    assert_eq!(r.markers, 0);
    let _ = g.frame(1, true, &vec![]);
    let r = g.frame(1, false, &stale);
    assert_eq!(r.markers, 0);
}

#[test]
fn ready_frame_sets_up_scene_once() {
    let mut g = Game::new(assets());
    let r = g.frame(1, true, &vec![]);
    assert!(!r.fired);
    assert_eq!(g.state, State::Play);
    assert_eq!(g.trigger, Some(Trigger::new(FIRE_INTERVAL_TICKS)));
    assert_eq!(g.world.ents.len(), 1);
    let rock = g.world.ents[0].unwrap();
    assert!(rock.kinematic);
    assert_eq!(rock.transform.translation, Vec3 { x: 15 * UNIT, y: 15 * UNIT, z: 0 });
    assert_eq!(rock.transform.scale, Vec3 { x: 4 * UNIT, y: 4 * UNIT, z: 4 * UNIT });
}

#[test]
fn trigger_fires_a_projectile_each_interval() {
    let mut g = Game::new(assets());
    g.frame(1, true, &vec![]);
    let r = g.frame(FIRE_INTERVAL_TICKS - 1, false, &vec![]);
    assert!(!r.fired);
    let r = g.frame(1, false, &vec![]);
    assert!(r.fired);
    assert_eq!(g.world.ents.len(), 2);
    let p = g.world.ents[1].unwrap();
    assert_eq!(p.velocity, Some(Vec3 { x: 10 * UNIT, y: 10 * UNIT, z: 0 }));
    assert!(p.kinematic);
    assert_eq!(p.scene, Some(4));
    assert_eq!(p.despawn, Some(DelayedDespawn::after(AMMO_LIFETIME_TICKS)));
}

#[test]
fn projectile_is_swept_after_its_lifetime() {
    let mut g = Game::new(assets());
    g.frame(1, true, &vec![]);
    let r = g.frame(FIRE_INTERVAL_TICKS, false, &vec![]);
    assert!(r.fired);
    assert!(g.world.ents[1].is_some());
    g.frame(AMMO_LIFETIME_TICKS - 1, false, &vec![]);
    assert!(g.world.ents[1].is_some());
    g.frame(1, false, &vec![]);
    assert!(g.world.ents[1].is_none());
}

#[test]
fn collision_during_play_spawns_two_short_lived_markers() {
    let mut g = Game::new(assets());
    g.frame(1, true, &vec![]);
    // Give the rock a collider and add a second body to collide with.
    let mut rock = g.world.ents[0].unwrap();
    rock.collider_mesh = Some(9);
    g.world.ents[0] = Some(rock);
    let mut other = Entity::plain(Transform {
        translation: Vec3 { x: 0, y: 0, z: 0 },
        rotation: Mat3::identity(),
        scale: Vec3::splat(UNIT),
    });
    other.collider_mesh = Some(9);
    let other_h = g.world.spawn(other);
    let events = vec![Contacts {
        entity1: 0,
        entity2: other_h,
        during_previous_frame: false,
        manifolds: vec![Manifold {
            contacts: vec![ContactPoint {
                point1: Vec3 { x: UNIT, y: 0, z: 0 },
                point2: Vec3 { x: 0, y: UNIT, z: 0 },
            }],
        }],
    }];
    let r = g.frame(1, false, &events);
    assert_eq!(r.markers, 2);
    assert_eq!(g.world.ents.len(), 4);
    let m1 = g.world.ents[2].unwrap();
    let m2 = g.world.ents[3].unwrap();
    // First marker at the rock's translation plus the rotated local point.
    assert_eq!(m1.transform.translation, Vec3 { x: 16 * UNIT, y: 15 * UNIT, z: 0 });
    assert_eq!(m2.transform.translation, Vec3 { x: 0, y: UNIT, z: 0 });
    assert_eq!(m1.mesh, Some(1));
    assert_eq!(m1.transform.scale, Vec3 { x: 3 * UNIT, y: 3 * UNIT, z: 3 * UNIT });
    assert!(m1.despawn.is_some());
    // The markers expire after one second of ticks.
    g.frame(1000, false, &vec![]);
    assert!(g.world.ents[2].is_none());
    assert!(g.world.ents[3].is_none());
}
