use rockscene::collision::collide;
use rockscene::collision::ContactPoint;
use rockscene::collision::Contacts;
use rockscene::collision::Manifold;
use rockscene::layers::Layer;
use rockscene::vecmath::Mat3;
use rockscene::vecmath::Transform;
use rockscene::vecmath::Vec3;
use rockscene::vecmath::UNIT;
use rockscene::world::hook_ammo_child;
use rockscene::world::hook_rock_child;
use rockscene::world::Collidable;
use rockscene::world::Entity;
use rockscene::world::World;
use rockscene::world::NAME_BALL;
use rockscene::world::NAME_COLLIDER;

fn body_at(translation: Vec3) -> Entity {
    let mut e = Entity::plain(Transform {
        translation,
        rotation: Mat3::identity(),
        scale: Vec3::splat(UNIT),
    });
    e.collider_mesh = Some(1);
    e
}

fn pair(x1: i64, y1: i64, z1: i64) -> ContactPoint {
    ContactPoint {
        point1: Vec3 { x: x1, y: y1, z: z1 },
        point2: Vec3 { x: 0, y: 0, z: 0 },
    }
}

/// Two manifolds with two contacts each for the first body, at local points
/// whose manifold means are (2, 0, 0) and (1, 1, 0): the average of
/// averages is (1.5, 0.5, 0), and a translation of (10, 0, 0) under an
/// identity rotation carries it to the world point (11.5, 0.5, 0).
#[test]
fn averaged_impact_point_matches_worked_example() {
    let mut world = World::new();
    let a = world.spawn(body_at(Vec3 { x: 10 * UNIT, y: 0, z: 0 }));
    let b = world.spawn(body_at(Vec3 { x: 0, y: 0, z: 0 }));
    let events = vec![Contacts {
        entity1: a,
        entity2: b,
        during_previous_frame: false,
        manifolds: vec![
            Manifold { contacts: vec![pair(1 * UNIT, 0, 0), pair(3 * UNIT, 0, 0)] },
            Manifold { contacts: vec![pair(1 * UNIT, 0, 0), pair(1 * UNIT, 2 * UNIT, 0)] },
        ],
    }];
    let markers = collide(&world, &events);
    assert_eq!(markers.len(), 2);
    assert_eq!(markers[0].position, Vec3 { x: 11_500, y: 500, z: 0 });
    assert_eq!(markers[1].position, Vec3 { x: 0, y: 0, z: 0 });
}

#[test]
fn previous_frame_event_requests_no_marker() {
    let mut world = World::new();
    let a = world.spawn(body_at(Vec3 { x: 0, y: 0, z: 0 }));
    let b = world.spawn(body_at(Vec3 { x: 0, y: 0, z: 0 }));
    let events = vec![Contacts {
        entity1: a,
        entity2: b,
        during_previous_frame: true,
        manifolds: vec![],
    }];
    let markers = collide(&world, &events);
    assert_eq!(markers.len(), 0);
}

#[test]
fn unresolvable_participant_skips_event() {
    let mut world = World::new();
    let a = world.spawn(body_at(Vec3 { x: 0, y: 0, z: 0 }));
    let b = world.spawn(body_at(Vec3 { x: 0, y: 0, z: 0 }));
    world.despawn(b);
    let events = vec![Contacts {
        entity1: a,
        entity2: b,
        during_previous_frame: false,
        manifolds: vec![Manifold { contacts: vec![pair(UNIT, 0, 0)] }],
    }];
    let markers = collide(&world, &events);
    assert_eq!(markers.len(), 0);
}

#[test]
fn body_without_collider_skips_event() {
    let mut world = World::new();
    let a = world.spawn(body_at(Vec3 { x: 0, y: 0, z: 0 }));
    let plain = world.spawn(Entity::plain(Transform {
        translation: Vec3 { x: 0, y: 0, z: 0 },
        rotation: Mat3::identity(),
        scale: Vec3::splat(UNIT),
    }));
    let events = vec![Contacts {
        entity1: a,
        entity2: plain,
        during_previous_frame: false,
        manifolds: vec![Manifold { contacts: vec![pair(UNIT, 0, 0)] }],
    }];
    let markers = collide(&world, &events);
    assert_eq!(markers.len(), 0);
}

/// A quarter turn about the z axis carries the local point (1, 0, 0) to
/// the world point (0, 1, 0).
#[test]
fn rotation_is_applied_to_the_local_centroid() {
    let quarter_turn = Mat3 {
        xx: 0,
        xy: -1000,
        xz: 0,
        yx: 1000,
        yy: 0,
        yz: 0,
        zx: 0,
        zy: 0,
        zz: 1000,
    };
    let mut world = World::new();
    let mut e = Entity::plain(Transform {
        translation: Vec3 { x: 0, y: 0, z: 0 },
        rotation: quarter_turn,
        scale: Vec3::splat(UNIT),
    });
    e.collider_mesh = Some(1);
    let a = world.spawn(e);
    let b = world.spawn(body_at(Vec3 { x: 0, y: 0, z: 0 }));
    let events = vec![Contacts {
        entity1: a,
        entity2: b,
        during_previous_frame: false,
        manifolds: vec![Manifold { contacts: vec![pair(UNIT, 0, 0)] }],
    }];
    let markers = collide(&world, &events);
    assert_eq!(markers.len(), 2);
    assert_eq!(markers[0].position, Vec3 { x: 0, y: UNIT, z: 0 });
}

#[test]
fn collidable_attaches_first_childs_mesh_and_layer() {
    let mut world = World::new();
    let mut child = Entity::plain(Transform {
        translation: Vec3 { x: 0, y: 0, z: 0 },
        rotation: Mat3::identity(),
        scale: Vec3::splat(UNIT),
    });
    child.mesh = Some(7);
    let child_h = world.spawn(child);
    let mut parent = Entity::plain(Transform {
        translation: Vec3 { x: 0, y: 0, z: 0 },
        rotation: Mat3::identity(),
        scale: Vec3::splat(UNIT),
    });
    parent.first_child = Some(child_h);
    let parent_h = world.spawn(parent);
    Collidable { layer: Layer::Object }.apply(parent_h, &mut world);
    let e = world.ents[parent_h].unwrap();
    assert_eq!(e.collider_mesh, Some(7));
    assert_eq!(e.layers, Some(Layer::Object.config()));
}

/// Means that do not divide evenly truncate toward zero: three contacts
/// summing to (-1, 0, 0) world units average to -333 subunits, not -334.
#[test]
fn uneven_negative_mean_truncates_toward_zero() {
    let mut world = World::new();
    let a = world.spawn(body_at(Vec3 { x: 0, y: 0, z: 0 }));
    let b = world.spawn(body_at(Vec3 { x: 0, y: 0, z: 0 }));
    let events = vec![Contacts {
        entity1: a,
        entity2: b,
        during_previous_frame: false,
        manifolds: vec![Manifold {
            contacts: vec![pair(0, 0, 0), pair(0, 0, 0), pair(-UNIT, 0, 0)],
        }],
    }];
    let markers = collide(&world, &events);
    assert_eq!(markers[0].position, Vec3 { x: -333, y: 0, z: 0 });
}

fn named_node(world: &mut World, name: u64, mesh: u64) -> usize {
    let mut child = Entity::plain(Transform::identity());
    child.mesh = Some(mesh);
    let child_h = world.spawn(child);
    let mut node = Entity::plain(Transform::identity());
    node.name = Some(name);
    node.first_child = Some(child_h);
    world.spawn(node)
}

#[test]
fn rock_hook_arms_only_the_ball_node() {
    let mut world = World::new();
    let ball = named_node(&mut world, NAME_BALL, 5);
    let other = named_node(&mut world, 99, 6);
    hook_rock_child(&mut world, ball);
    hook_rock_child(&mut world, other);
    let armed = world.ents[ball].unwrap();
    assert_eq!(armed.collider_mesh, Some(5));
    assert_eq!(armed.layers, Some(Layer::Object.config()));
    let untouched = world.ents[other].unwrap();
    assert_eq!(untouched.collider_mesh, None);
    assert_eq!(untouched.layers, None);
}

#[test]
fn ammo_hook_hides_and_arms_only_the_collider_node() {
    let mut world = World::new();
    let collider = named_node(&mut world, NAME_COLLIDER, 5);
    let other = named_node(&mut world, NAME_BALL, 6);
    hook_ammo_child(&mut world, collider);
    hook_ammo_child(&mut world, other);
    let armed = world.ents[collider].unwrap();
    assert!(armed.hidden);
    assert_eq!(armed.collider_mesh, Some(5));
    assert_eq!(armed.layers, Some(Layer::Ammo.config()));
    let untouched = world.ents[other].unwrap();
    assert!(!untouched.hidden);
    assert_eq!(untouched.layers, None);
}

#[test]
fn layer_configs_are_pairwise_exclusive() {
    let ammo = Layer::Ammo.config();
    let object = Layer::Object.config();
    assert!(ammo.memberships.ammo && !ammo.memberships.object);
    assert!(!ammo.filters.ammo && ammo.filters.object);
    assert!(!object.memberships.ammo && object.memberships.object);
    assert!(object.filters.ammo && !object.filters.object);
}
