//! The two-phase lifecycle and the per-frame step: nothing dynamic happens
//! while assets load; once they are loaded the scene is set up exactly once
//! and from then on each frame runs the delayed-removal sweep, the fire
//! trigger and the collision response, in that order.

use vstd::prelude::*;
use crate::collision::collide;
use crate::collision::collide_markers;
use crate::collision::event_wf;
use crate::collision::Contacts;
use crate::collision::MarkerRequest;
use crate::timers::DelayedDespawn;
use crate::timers::Trigger;
use crate::timers::TICKS_PER_SECOND;
use crate::vecmath::Mat3;
use crate::vecmath::Transform;
use crate::vecmath::Vec3;
use crate::vecmath::UNIT;
use crate::world::sweep_slot;
use crate::world::Entity;
use crate::world::World;

verus! {

/// Ticks between two projectile launches.
pub const FIRE_INTERVAL_TICKS: u64 = 4 * TICKS_PER_SECOND;

/// Lifetime of a projectile before its delayed removal.
pub const AMMO_LIFETIME_TICKS: u64 = 8 * TICKS_PER_SECOND;

/// Lifetime of an impact marker before its delayed removal.
pub const MARKER_LIFETIME_TICKS: u64 = 1 * TICKS_PER_SECOND;

/// The lifecycle phase: assets load first, play begins when they are done
/// and never goes back.
#[derive(Clone, Copy, PartialEq, Eq, Structural, Debug)]
pub enum State {
    Load,
    Play,
}

/// Opaque handles to the loaded assets: two named sub-meshes and two named
/// sub-scenes. The shell's asset table resolves them.
#[derive(Clone, Copy, PartialEq, Eq, Structural, Debug)]
pub struct BlenderAssets {
    pub ball: u64,
    pub spike: u64,
    pub rock: u64,
    pub ammo: u64,
}

/// What one frame reported: whether the trigger fired (one projectile
/// spawned) and how many impact markers were requested.
#[derive(Clone, Copy, PartialEq, Eq, Structural, Debug)]
pub struct FrameReport {
    pub fired: bool,
    pub markers: usize,
}

/// The kinematic rock body the scene starts with: scaled by four, placed at
/// (15, 15, 0) world units.
pub open spec fn rock_entity() -> Entity {
    Entity {
        transform: Transform {
            translation: Vec3 { x: (15 * UNIT) as i64, y: (15 * UNIT) as i64, z: 0i64 },
            rotation: Mat3::identity_spec(),
            scale: Vec3 { x: (4 * UNIT) as i64, y: (4 * UNIT) as i64, z: (4 * UNIT) as i64 },
        },
        velocity: None,
        kinematic: true,
        layers: None,
        collider_mesh: None,
        mesh: None,
        scene: None,
        name: None,
        hidden: false,
        despawn: None,
        first_child: None,
    }
}

/// A freshly fired projectile: the ammo scene scaled by two, a fixed
/// velocity of (10, 10, 0) world units, kinematic, and a delayed removal.
/// Its orientation is the rotation carrying the up axis onto the velocity;
/// the shell derives it from the velocity in floating point and writes it
/// into the transform.
pub open spec fn projectile_entity(assets: BlenderAssets) -> Entity {
    Entity {
        transform: Transform {
            translation: Vec3 { x: 0i64, y: 0i64, z: 0i64 },
            rotation: Mat3::identity_spec(),
            scale: Vec3 { x: (2 * UNIT) as i64, y: (2 * UNIT) as i64, z: (2 * UNIT) as i64 },
        },
        velocity: Some(Vec3 { x: (10 * UNIT) as i64, y: (10 * UNIT) as i64, z: 0i64 }),
        kinematic: true,
        layers: None,
        collider_mesh: None,
        mesh: None,
        scene: Some(assets.ammo),
        name: None,
        hidden: false,
        despawn: Some(DelayedDespawn { duration: AMMO_LIFETIME_TICKS, elapsed: 0, expired: false }),
        first_child: None,
    }
}

/// An impact marker at a world-space point: the ball mesh with an emissive
/// material, scaled by three, and a short delayed removal.
pub open spec fn marker_entity(assets: BlenderAssets, position: Vec3) -> Entity {
    Entity {
        transform: Transform {
            translation: position,
            rotation: Mat3::identity_spec(),
            scale: Vec3 { x: (3 * UNIT) as i64, y: (3 * UNIT) as i64, z: (3 * UNIT) as i64 },
        },
        velocity: None,
        kinematic: false,
        layers: None,
        collider_mesh: None,
        mesh: Some(assets.ball),
        scene: None,
        name: None,
        hidden: false,
        despawn: Some(DelayedDespawn {
            duration: MARKER_LIFETIME_TICKS,
            elapsed: 0,
            expired: false,
        }),
        first_child: None,
    }
}

/// A game as a mathematical value: phase, asset handles, trigger state and
/// registry contents.
pub type GameModel = (State, BlenderAssets, Option<Trigger>, Seq<Option<Entity>>);

/// The registry after the play part of a frame: the swept slots, then the
/// projectile if the trigger fired.
pub open spec fn model_play_world(m: GameModel, delta: u64) -> Seq<Option<Entity>> {
    let swept = m.3.map(|i: int, slot: Option<Entity>| sweep_slot(slot, delta));
    if m.2->0.step(delta).1 {
        swept.push(Some(projectile_entity(m.1)))
    } else {
        swept
    }
}

/// One frame as a mathematical function on game models: the identity while
/// loading and not ready; the one-time scene setup on the ready frame; and
/// during play the removal sweep, the trigger step and the collision
/// response, in that order.
pub open spec fn frame_model(m: GameModel, delta: u64, ready: bool, events: Seq<Contacts>) -> GameModel {
    match m.0 {
        State::Load => if ready {
            (
                State::Play,
                m.1,
                Some(Trigger { interval: FIRE_INTERVAL_TICKS, elapsed: 0u64 }),
                m.3.push(Some(rock_entity())),
            )
        } else {
            m
        },
        State::Play => {
            let w = model_play_world(m, delta);
            let ms = collide_markers(w, events);
            (
                State::Play,
                m.1,
                Some(m.2->0.step(delta).0),
                w + ms.map(|i: int, mk: MarkerRequest| Some(marker_entity(m.1, mk.position))),
            )
        },
    }
}

/// A game model after a whole run of frames, each given as its delta,
/// whether the assets were ready, and its collision events.
pub open spec fn run_model(m: GameModel, frames: Seq<(u64, bool, Seq<Contacts>)>) -> GameModel
    decreases frames.len(),
{
    if frames.len() == 0 {
        m
    } else {
        frame_model(run_model(m, frames.drop_last()), frames.last().0, frames.last().1, frames.last().2)
    }
}

/// Law: while the assets never come ready, a loading game is left exactly
/// as it is by any number of frames — no trigger fire, no removal sweep,
/// no collision response, no phase change.
pub proof fn lemma_phase_gate(m: GameModel, frames: Seq<(u64, bool, Seq<Contacts>)>)
    requires
        m.0 == State::Load,
        forall|i: int| 0 <= i < frames.len() ==> !(#[trigger] frames[i]).1,
    ensures
        run_model(m, frames) == m,
    decreases frames.len(),
{
    if frames.len() > 0 {
        lemma_phase_gate(m, frames.drop_last());
    }
}

/// The whole game context: lifecycle phase, asset handles, the fire trigger
/// (present only during play) and the entity registry.
pub struct Game {
    pub state: State,
    pub assets: BlenderAssets,
    pub trigger: Option<Trigger>,
    pub world: World,
}

impl Game {
    pub open spec fn wf(self) -> bool {
        &&& self.world.wf()
        &&& (self.state == State::Play ==> self.trigger is Some)
        &&& (self.trigger is Some ==> self.trigger->0.wf())
    }

    /// A fresh game, still loading, with an empty registry.
    pub fn new(assets: BlenderAssets) -> (r: Game)
        ensures
            r.wf(),
            r.state == State::Load,
            r.assets == assets,
            r.trigger is None,
            r.world.ents@ == Seq::<Option<Entity>>::empty(),
    {
        Game { state: State::Load, assets, trigger: None, world: World::new() }
    }

    /// One-time scene setup on entering play: create the repeating fire
    /// trigger and spawn the kinematic rock body.
    pub fn setup_scene(&mut self)
        requires
            old(self).wf(),
            old(self).world.ents@.len() < usize::MAX,
        ensures
            final(self).wf(),
            final(self).state == old(self).state,
            final(self).assets == old(self).assets,
            final(self).trigger == Some(
                Trigger { interval: FIRE_INTERVAL_TICKS, elapsed: 0u64 },
            ),
            final(self).world.ents@ == old(self).world.ents@.push(Some(rock_entity())),
    {
        self.trigger = Some(Trigger::new(FIRE_INTERVAL_TICKS));
        let rock = Entity {
            transform: Transform {
                translation: Vec3 { x: 15 * UNIT, y: 15 * UNIT, z: 0 },
                rotation: Mat3::identity(),
                scale: Vec3 { x: 4 * UNIT, y: 4 * UNIT, z: 4 * UNIT },
            },
            velocity: None,
            kinematic: true,
            layers: None,
            collider_mesh: None,
            mesh: None,
            scene: None,
            name: None,
            hidden: false,
            despawn: None,
            first_child: None,
        };
        self.world.spawn(rock);
    }

    /// Advances the fire trigger by the frame delta; on fire, spawns one
    /// projectile and reports true.
    pub fn fire(&mut self, delta: u64) -> (fired: bool)
        requires
            old(self).wf(),
            old(self).trigger is Some,
            old(self).world.ents@.len() < usize::MAX,
        ensures
            final(self).wf(),
            final(self).state == old(self).state,
            final(self).assets == old(self).assets,
            final(self).trigger == Some(old(self).trigger->0.step(delta).0),
            fired == old(self).trigger->0.step(delta).1,
            final(self).world.ents@ == if fired {
                old(self).world.ents@.push(Some(projectile_entity(old(self).assets)))
            } else {
                old(self).world.ents@
            },
    {
        let mut t = self.trigger.unwrap();
        let fired = t.advance(delta);
        self.trigger = Some(t);
        if fired {
            let projectile = Entity {
                transform: Transform {
                    translation: Vec3 { x: 0, y: 0, z: 0 },
                    rotation: Mat3::identity(),
                    scale: Vec3 { x: 2 * UNIT, y: 2 * UNIT, z: 2 * UNIT },
                },
                velocity: Some(Vec3 { x: 10 * UNIT, y: 10 * UNIT, z: 0 }),
                kinematic: true,
                layers: None,
                collider_mesh: None,
                mesh: None,
                scene: Some(self.assets.ammo),
                name: None,
                hidden: false,
                despawn: Some(DelayedDespawn::after(AMMO_LIFETIME_TICKS)),
                first_child: None,
            };
            self.world.spawn(projectile);
        }
        fired
    }

    /// Spawns one impact marker per request, in order.
    pub fn spawn_markers(&mut self, requests: &Vec<MarkerRequest>)
        requires
            old(self).wf(),
            old(self).world.ents@.len() + requests@.len() < usize::MAX,
        ensures
            final(self).wf(),
            final(self).state == old(self).state,
            final(self).assets == old(self).assets,
            final(self).trigger == old(self).trigger,
            final(self).world.ents@ == old(self).world.ents@ + requests@.map(
                |i: int, m: MarkerRequest| Some(marker_entity(old(self).assets, m.position)),
            ),
    {
        let ghost orig = self.world.ents@;
        let n = requests.len();
        let mut i: usize = 0;
        while i < n
            invariant
                self.wf(),
                n == requests@.len(),
                i <= n,
                self.state == old(self).state,
                self.assets == old(self).assets,
                self.trigger == old(self).trigger,
                orig == old(self).world.ents@,
                orig.len() + n < usize::MAX,
                self.world.ents@ == orig + requests@.take(i as int).map(
                    |k: int, m: MarkerRequest| Some(marker_entity(old(self).assets, m.position)),
                ),
            decreases n - i,
        {
            let position = requests[i].position;
            let marker = Entity {
                transform: Transform {
                    translation: position,
                    rotation: Mat3::identity(),
                    scale: Vec3 { x: 3 * UNIT, y: 3 * UNIT, z: 3 * UNIT },
                },
                velocity: None,
                kinematic: false,
                layers: None,
                collider_mesh: None,
                mesh: Some(self.assets.ball),
                scene: None,
                name: None,
                hidden: false,
                despawn: Some(DelayedDespawn::after(MARKER_LIFETIME_TICKS)),
                first_child: None,
            };
            self.world.spawn(marker);
            proof {
                assert(requests@.take(i + 1).map(
                    |k: int, m: MarkerRequest| Some(marker_entity(old(self).assets, m.position)),
                ) =~= requests@.take(i as int).map(
                    |k: int, m: MarkerRequest| Some(marker_entity(old(self).assets, m.position)),
                ).push(Some(marker_entity(old(self).assets, requests@[i as int].position))));
            }
            i = i + 1;
        }
        proof {
            assert(requests@.take(n as int) =~= requests@);
        }
    }

    /// What the world holds after the play part of a frame: the swept
    /// registry, then the projectile if the trigger fired.
    pub open spec fn play_world(self, delta: u64) -> Seq<Option<Entity>> {
        let swept = self.world.ents@.map(|i: int, slot: Option<Entity>| sweep_slot(slot, delta));
        if self.trigger->0.step(delta).1 {
            swept.push(Some(projectile_entity(self.assets)))
        } else {
            swept
        }
    }

    /// The marker requests the play part of a frame computes, against the
    /// swept-and-fired world.
    pub open spec fn play_markers(self, delta: u64, events: Seq<Contacts>) -> Seq<MarkerRequest> {
        collide_markers(self.play_world(delta), events)
    }

    /// The game as a mathematical value: phase, assets, trigger and the
    /// registry contents.
    pub open spec fn model(self) -> GameModel {
        (self.state, self.assets, self.trigger, self.world.ents@)
    }

    /// One frame. While loading and not ready, nothing happens at all; the
    /// frame that finds the assets ready sets the scene up and enters play;
    /// during play the frame sweeps delayed removals, advances the fire
    /// trigger and answers the collision events, in that order.
    pub fn frame(&mut self, delta: u64, assets_ready: bool, events: &Vec<Contacts>) -> (r:
        FrameReport)
        requires
            old(self).wf(),
            forall|i: int| 0 <= i < events@.len() ==> event_wf(#[trigger] events@[i]),
            old(self).world.ents@.len() + 1 + 2 * events@.len() < usize::MAX,
        ensures
            final(self).wf(),
            final(self).assets == old(self).assets,
            final(self).model() == frame_model(old(self).model(), delta, assets_ready, events@),
            old(self).state == State::Load && !assets_ready ==> *final(self) == *old(self)
                && !r.fired && r.markers == 0,
            old(self).state == State::Load && assets_ready ==> final(self).state == State::Play
                && final(self).trigger == Some(
                Trigger { interval: FIRE_INTERVAL_TICKS, elapsed: 0u64 },
            ) && final(self).world.ents@ == old(self).world.ents@.push(Some(rock_entity()))
                && !r.fired && r.markers == 0,
            old(self).state == State::Play ==> {
                &&& final(self).state == State::Play
                &&& final(self).trigger == Some(old(self).trigger->0.step(delta).0)
                &&& r.fired == old(self).trigger->0.step(delta).1
                &&& final(self).world.ents@ == old(self).play_world(delta) + old(self).play_markers(
                    delta,
                    events@,
                ).map(
                    |i: int, m: MarkerRequest| Some(
                        marker_entity(old(self).assets, m.position),
                    ),
                )
                &&& r.markers == old(self).play_markers(delta, events@).len()
            },
    {
        match self.state {
            State::Load => {
                if assets_ready {
                    self.setup_scene();
                    self.state = State::Play;
                }
                FrameReport { fired: false, markers: 0 }
            },
            State::Play => {
                self.world.despawn_sweep(delta);
                let fired = self.fire(delta);
                let requests = collide(&self.world, events);
                proof {
                    lemma_collide_markers_len(self.world.ents@, events@);
                }
                self.spawn_markers(&requests);
                FrameReport { fired, markers: requests.len() }
            },
        }
    }
}

/// A batch of events requests at most two markers per event.
proof fn lemma_collide_markers_len(ents: Seq<Option<Entity>>, events: Seq<Contacts>)
    ensures
        collide_markers(ents, events).len() <= 2 * events.len(),
    decreases events.len(),
{
    if events.len() > 0 {
        lemma_collide_markers_len(ents, events.drop_last());
    }
}

} // verus!
