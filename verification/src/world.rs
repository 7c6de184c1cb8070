//! A flat entity registry: an arena of entity records keyed by opaque
//! handles (indices). Spawning appends, removal clears a slot, and the
//! delayed-removal sweep advances every removal timer and clears the slots
//! whose timer fired.

use vstd::prelude::*;
use crate::layers::CollisionLayers;
use crate::layers::Layer;
use crate::timers::DelayedDespawn;
use crate::vecmath::Transform;
use crate::vecmath::Vec3;

verus! {

/// One entity record. Unset components are `None`; asset references (mesh,
/// scene) are opaque handles the asset table of the shell resolves. The
/// scene subtree under an entity is the host engine's business; the only
/// part of it this logic reads is the first child, whose render mesh seeds
/// the trimesh collider.
#[derive(Clone, Copy, PartialEq, Eq, Structural, Debug)]
pub struct Entity {
    pub transform: Transform,
    pub velocity: Option<Vec3>,
    pub kinematic: bool,
    pub layers: Option<CollisionLayers>,
    pub collider_mesh: Option<u64>,
    pub mesh: Option<u64>,
    pub scene: Option<u64>,
    pub name: Option<u64>,
    pub hidden: bool,
    pub despawn: Option<DelayedDespawn>,
    pub first_child: Option<usize>,
}

impl Entity {
    /// An entity that takes part in collision resolution (it carries a
    /// collider) must have a transform fit for it; a removal timer must be
    /// well formed.
    pub open spec fn wf(self) -> bool {
        &&& (self.collider_mesh is Some ==> self.transform.wf())
        &&& (self.despawn is Some ==> self.despawn->0.wf())
    }

    /// A bare entity at the given transform, with no components attached.
    pub fn plain(transform: Transform) -> (r: Entity)
        ensures
            r == (Entity {
                transform,
                velocity: None::<Vec3>,
                kinematic: false,
                layers: None::<CollisionLayers>,
                collider_mesh: None::<u64>,
                mesh: None::<u64>,
                scene: None::<u64>,
                name: None::<u64>,
                hidden: false,
                despawn: None::<DelayedDespawn>,
                first_child: None::<usize>,
            }),
            r.wf(),
    {
        Entity {
            transform,
            velocity: None,
            kinematic: false,
            layers: None,
            collider_mesh: None,
            mesh: None,
            scene: None,
            name: None,
            hidden: false,
            despawn: None,
            first_child: None,
        }
    }
}

/// How the delayed-removal sweep treats one slot: a live entity whose
/// removal timer fires is removed together with everything it owns (its
/// slot is cleared in one step); otherwise only the timer state advances.
pub open spec fn sweep_slot(slot: Option<Entity>, delta: u64) -> Option<Entity> {
    match slot {
        None => None,
        Some(e) => match e.despawn {
            None => Some(e),
            Some(dd) => if dd.step(delta).1 {
                None
            } else {
                Some(Entity { despawn: Some(dd.step(delta).0), ..e })
            },
        },
    }
}

/// The entity registry.
pub struct World {
    pub ents: Vec<Option<Entity>>,
}

impl World {
    pub open spec fn wf(self) -> bool {
        forall|i: int|
            0 <= i < self.ents@.len() && self.ents@[i] is Some ==> (#[trigger] self.ents@[i])->0.wf()
    }

    pub fn new() -> (r: World)
        ensures
            r.ents@ == Seq::<Option<Entity>>::empty(),
            r.wf(),
    {
        let ents: Vec<Option<Entity>> = Vec::new();
        assert(ents@ =~= Seq::<Option<Entity>>::empty());
        World { ents }
    }

    /// Appends a record and returns its fresh handle.
    pub fn spawn(&mut self, e: Entity) -> (h: usize)
        requires
            old(self).wf(),
            e.wf(),
            old(self).ents@.len() < usize::MAX,
        ensures
            final(self).wf(),
            h == old(self).ents@.len(),
            final(self).ents@ == old(self).ents@.push(Some(e)),
    {
        let h = self.ents.len();
        self.ents.push(Some(e));
        h
    }

    /// Whether a handle currently names a live entity.
    pub open spec fn alive(self, h: int) -> bool {
        0 <= h < self.ents@.len() && self.ents@[h] is Some
    }

    /// Clears a slot, removing the entity and everything it owns at once.
    pub fn despawn(&mut self, h: usize)
        requires
            old(self).wf(),
            h < old(self).ents@.len(),
        ensures
            final(self).wf(),
            final(self).ents@ == old(self).ents@.update(h as int, None::<Entity>),
    {
        self.ents.set(h, None);
    }

    /// Overwrites a live entity's transform, as the physics integration of
    /// the shell does each frame. A collider-carrying entity only accepts a
    /// transform fit for collision resolution.
    pub fn set_transform(&mut self, h: usize, t: Transform)
        requires
            old(self).wf(),
            old(self).alive(h as int),
            old(self).ents@[h as int]->0.collider_mesh is Some ==> t.wf(),
        ensures
            final(self).wf(),
            final(self).ents@ == old(self).ents@.update(
                h as int,
                Some(Entity { transform: t, ..old(self).ents@[h as int]->0 }),
            ),
    {
        let en = self.ents[h].unwrap();
        self.ents.set(h, Some(Entity { transform: t, ..en }));
    }

    /// Advances every removal timer by the frame delta and clears each slot
    /// whose timer fired, all in one pass.
    pub fn despawn_sweep(&mut self, delta: u64)
        requires
            old(self).wf(),
        ensures
            final(self).wf(),
            final(self).ents@ == old(self).ents@.map(
                |i: int, slot: Option<Entity>| sweep_slot(slot, delta),
            ),
    {
        let ghost orig = self.ents@;
        let n = self.ents.len();
        let mut i: usize = 0;
        while i < n
            invariant
                n == orig.len(),
                self.ents@.len() == orig.len(),
                i <= n,
                forall|j: int|
                    0 <= j < i ==> self.ents@[j] == sweep_slot(#[trigger] orig[j], delta),
                forall|j: int| i <= j < n ==> self.ents@[j] == #[trigger] orig[j],
                self.wf(),
            decreases n - i,
        {
            let slot = self.ents[i];
            match slot {
                None => {},
                Some(mut ent) => {
                    match ent.despawn {
                        None => {},
                        Some(mut dd) => {
                            let fired = dd.advance(delta);
                            if fired {
                                self.ents.set(i, None);
                            } else {
                                ent.despawn = Some(dd);
                                self.ents.set(i, Some(ent));
                            }
                        },
                    }
                },
            }
            i = i + 1;
        }
        assert(self.ents@ =~= orig.map(|j: int, slot: Option<Entity>| sweep_slot(slot, delta)));
    }
}

/// Name id the shell's interner assigns to the scene node named "ball".
pub const NAME_BALL: u64 = 1;

/// Name id the shell's interner assigns to the scene node named "collider".
pub const NAME_COLLIDER: u64 = 2;

/// The post-spawn hook for each child of the rock scene: the child named
/// "ball" becomes a collidable body on the object layer; every other child
/// is left alone.
pub fn hook_rock_child(world: &mut World, entity: usize)
    requires
        old(world).wf(),
        old(world).alive(entity as int),
        old(world).ents@[entity as int]->0.name == Some(NAME_BALL) ==> {
            &&& old(world).ents@[entity as int]->0.first_child is Some
            &&& old(world).alive(old(world).ents@[entity as int]->0.first_child->0 as int)
            &&& old(world).ents@[old(world).ents@[entity as int]->0.first_child->0 as int]->0.mesh
                is Some
            &&& old(world).ents@[entity as int]->0.transform.wf()
        },
    ensures
        final(world).wf(),
        old(world).ents@[entity as int]->0.name == Some(NAME_BALL) ==> final(world).ents@ == old(
            world,
        ).ents@.update(
            entity as int,
            Some(Entity {
                collider_mesh: old(world).ents@[old(world).ents@[entity as int]->0.first_child->0 as int]->0.mesh,
                layers: Some(Layer::Object.config_spec()),
                ..old(world).ents@[entity as int]->0
            }),
        ),
        old(world).ents@[entity as int]->0.name != Some(NAME_BALL) ==> *final(world) == *old(
            world,
        ),
{
    let name = world.ents[entity].unwrap().name;
    match name {
        Some(n) => {
            if n == NAME_BALL {
                Collidable { layer: Layer::Object }.apply(entity, world);
            }
        },
        None => {},
    }
}

/// The post-spawn hook for each child of the ammo scene: the child named
/// "collider" is hidden and becomes a collidable body on the ammo layer;
/// every other child is left alone.
pub fn hook_ammo_child(world: &mut World, entity: usize)
    requires
        old(world).wf(),
        old(world).alive(entity as int),
        old(world).ents@[entity as int]->0.name == Some(NAME_COLLIDER) ==> {
            &&& old(world).ents@[entity as int]->0.first_child is Some
            &&& old(world).alive(old(world).ents@[entity as int]->0.first_child->0 as int)
            &&& old(world).ents@[old(world).ents@[entity as int]->0.first_child->0 as int]->0.mesh
                is Some
            &&& old(world).ents@[entity as int]->0.transform.wf()
        },
    ensures
        final(world).wf(),
        old(world).ents@[entity as int]->0.name == Some(NAME_COLLIDER) ==> final(world).ents@
            == old(world).ents@.update(
            entity as int,
            Some(Entity {
                hidden: true,
                collider_mesh: old(world).ents@[old(world).ents@[entity as int]->0.first_child->0 as int]->0.mesh,
                layers: Some(Layer::Ammo.config_spec()),
                ..old(world).ents@[entity as int]->0
            }),
        ),
        old(world).ents@[entity as int]->0.name != Some(NAME_COLLIDER) ==> *final(world) == *old(
            world,
        ),
{
    let name = world.ents[entity].unwrap().name;
    match name {
        Some(n) => {
            if n == NAME_COLLIDER {
                let mut ent = world.ents[entity].unwrap();
                ent.hidden = true;
                world.ents.set(entity, Some(ent));
                Collidable { layer: Layer::Ammo }.apply(entity, world);
                proof {
                    assert(final(world).ents@ =~= old(world).ents@.update(
                        entity as int,
                        Some(Entity {
                            hidden: true,
                            collider_mesh: old(world).ents@[old(world).ents@[entity as int]->0.first_child->0 as int]->0.mesh,
                            layers: Some(Layer::Ammo.config_spec()),
                            ..old(world).ents@[entity as int]->0
                        }),
                    ));
                }
            }
        },
        None => {},
    }
}

/// Attaching this to an entity gives it a collider built from the render
/// mesh of its first child, configured for the given layer.
pub struct Collidable {
    pub layer: Layer,
}

impl Collidable {
    /// Builds a trimesh collider for `entity` from its first child's mesh
    /// and attaches it together with the layer's collision configuration.
    /// The entity must exist, have a child, and the child must hold a mesh:
    /// those are configuration-time invariants of the scene assets.
    pub fn apply(self, entity: usize, world: &mut World)
        requires
            old(world).wf(),
            old(world).alive(entity as int),
            old(world).ents@[entity as int]->0.first_child is Some,
            old(world).alive(old(world).ents@[entity as int]->0.first_child->0 as int),
            old(world).ents@[old(world).ents@[entity as int]->0.first_child->0 as int]->0.mesh
                is Some,
            old(world).ents@[entity as int]->0.transform.wf(),
        ensures
            final(world).wf(),
            final(world).ents@ == old(world).ents@.update(
                entity as int,
                Some(Entity {
                    collider_mesh: old(world).ents@[old(world).ents@[entity as int]->0.first_child->0 as int]->0.mesh,
                    layers: Some(self.layer.config_spec()),
                    ..old(world).ents@[entity as int]->0
                }),
            ),
    {
        let first_child = world.ents[entity].unwrap().first_child.unwrap();
        let handle = world.ents[first_child].unwrap().mesh;
        let config = self.layer.config();
        let mut ent = world.ents[entity].unwrap();
        ent.collider_mesh = handle;
        ent.layers = Some(config);
        world.ents.set(entity, Some(ent));
    }
}

} // verus!
