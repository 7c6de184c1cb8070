//! Collision response: for each fresh collision event, average the
//! contact-manifold points of each body (mean per manifold, then mean of
//! the manifold means), carry each averaged local centroid into world space
//! with that body's transform, and request an impact marker at each of the
//! two world points.

use vstd::prelude::*;
use crate::vecmath::add3;
use crate::vecmath::tdiv;
use crate::vecmath::tdiv3;
use crate::vecmath::tdiv64;
use crate::vecmath::world_point;
use crate::vecmath::apply_rotation;
use crate::vecmath::lemma_tdiv_bound;
use crate::vecmath::lemma_mul_le;
use crate::vecmath::lemma_mul_step;
use crate::vecmath::Vec3;
use crate::vecmath::CONTACT_LIMIT;
use crate::vecmath::MAX_POINTS;
use crate::world::Entity;
use crate::world::World;

verus! {

/// One contact: the touching points in each body's local frame.
#[derive(Clone, Copy, PartialEq, Eq, Structural, Debug)]
pub struct ContactPoint {
    pub point1: Vec3,
    pub point2: Vec3,
}

/// One contact manifold: the contact points of one overlapping region.
#[derive(Clone, Debug)]
pub struct Manifold {
    pub contacts: Vec<ContactPoint>,
}

/// One collision event from the physics step: the two bodies, whether the
/// contact already existed during the previous frame, and the manifolds.
#[derive(Clone, Debug)]
pub struct Contacts {
    pub entity1: usize,
    pub entity2: usize,
    pub during_previous_frame: bool,
    pub manifolds: Vec<Manifold>,
}

/// A request to spawn an impact marker at a world-space point.
#[derive(Clone, Copy, PartialEq, Eq, Structural, Debug)]
pub struct MarkerRequest {
    pub position: Vec3,
}

/// Componentwise sums of the first-body points of a contact sequence.
pub open spec fn sum1(s: Seq<ContactPoint>) -> (int, int, int)
    decreases s.len(),
{
    if s.len() == 0 {
        (0, 0, 0)
    } else {
        add3(sum1(s.drop_last()), s.last().point1.sv())
    }
}

/// Componentwise sums of the second-body points of a contact sequence.
pub open spec fn sum2(s: Seq<ContactPoint>) -> (int, int, int)
    decreases s.len(),
{
    if s.len() == 0 {
        (0, 0, 0)
    } else {
        add3(sum2(s.drop_last()), s.last().point2.sv())
    }
}

/// The mean of a manifold's first-body points.
pub open spec fn centroid1(m: Manifold) -> (int, int, int) {
    tdiv3(sum1(m.contacts@), m.contacts@.len() as int)
}

/// The mean of a manifold's second-body points.
pub open spec fn centroid2(m: Manifold) -> (int, int, int) {
    tdiv3(sum2(m.contacts@), m.contacts@.len() as int)
}

/// Componentwise sum of the per-manifold first-body centroids.
pub open spec fn csum1(ms: Seq<Manifold>) -> (int, int, int)
    decreases ms.len(),
{
    if ms.len() == 0 {
        (0, 0, 0)
    } else {
        add3(csum1(ms.drop_last()), centroid1(ms.last()))
    }
}

/// Componentwise sum of the per-manifold second-body centroids.
pub open spec fn csum2(ms: Seq<Manifold>) -> (int, int, int)
    decreases ms.len(),
{
    if ms.len() == 0 {
        (0, 0, 0)
    } else {
        add3(csum2(ms.drop_last()), centroid2(ms.last()))
    }
}

/// The averaged local impact point on the first body: the mean of the
/// per-manifold centroids (an average of averages, not weighted by contact
/// count).
pub open spec fn event_local1(c: Contacts) -> (int, int, int) {
    tdiv3(csum1(c.manifolds@), c.manifolds@.len() as int)
}

/// The averaged local impact point on the second body.
pub open spec fn event_local2(c: Contacts) -> (int, int, int) {
    tdiv3(csum2(c.manifolds@), c.manifolds@.len() as int)
}

/// Bounds under which the averaging arithmetic cannot overflow: at least
/// one manifold, at least one contact per manifold, counts within
/// `MAX_POINTS` and coordinates within `CONTACT_LIMIT`.
pub open spec fn event_wf(c: Contacts) -> bool {
    !c.during_previous_frame ==> {
        &&& 1 <= c.manifolds@.len() <= MAX_POINTS
        &&& forall|i: int|
            0 <= i < c.manifolds@.len() ==> {
                &&& 1 <= (#[trigger] c.manifolds@[i]).contacts@.len() <= MAX_POINTS
                &&& forall|j: int|
                    0 <= j < c.manifolds@[i].contacts@.len() ==> point_wf(
                        #[trigger] c.manifolds@[i].contacts@[j],
                    )
            }
    }
}

/// Both local points of a contact are within the coordinate limit.
pub open spec fn point_wf(p: ContactPoint) -> bool {
    &&& -CONTACT_LIMIT <= p.point1.x <= CONTACT_LIMIT
    &&& -CONTACT_LIMIT <= p.point1.y <= CONTACT_LIMIT
    &&& -CONTACT_LIMIT <= p.point1.z <= CONTACT_LIMIT
    &&& -CONTACT_LIMIT <= p.point2.x <= CONTACT_LIMIT
    &&& -CONTACT_LIMIT <= p.point2.y <= CONTACT_LIMIT
    &&& -CONTACT_LIMIT <= p.point2.z <= CONTACT_LIMIT
}

/// Whether an event participant can still be resolved: its handle names a
/// live entity that carries a collider (bodies without one never took part
/// in the physics step).
pub open spec fn resolved(ents: Seq<Option<Entity>>, h: int) -> bool {
    &&& 0 <= h < ents.len()
    &&& ents[h] is Some
    &&& ents[h]->0.collider_mesh is Some
}

/// The markers one event requests: none when the contact is stale or a
/// participant is gone, else one marker at each body's world-space impact
/// point.
pub open spec fn event_markers(ents: Seq<Option<Entity>>, c: Contacts) -> Seq<MarkerRequest> {
    if c.during_previous_frame || !resolved(ents, c.entity1 as int) || !resolved(
        ents,
        c.entity2 as int,
    ) {
        Seq::empty()
    } else {
        let w1 = world_point(ents[c.entity1 as int]->0.transform, event_local1(c));
        let w2 = world_point(ents[c.entity2 as int]->0.transform, event_local2(c));
        seq![
            MarkerRequest { position: Vec3 { x: w1.0 as i64, y: w1.1 as i64, z: w1.2 as i64 } },
            MarkerRequest { position: Vec3 { x: w2.0 as i64, y: w2.1 as i64, z: w2.2 as i64 } },
        ]
    }
}

/// The markers a whole batch of events requests, in order.
pub open spec fn collide_markers(ents: Seq<Option<Entity>>, events: Seq<Contacts>) -> Seq<
    MarkerRequest,
>
    decreases events.len(),
{
    if events.len() == 0 {
        Seq::empty()
    } else {
        collide_markers(ents, events.drop_last()) + event_markers(ents, events.last())
    }
}

/// Law: an event flagged as already present during the previous frame never
/// requests a marker, whatever the world holds.
pub proof fn lemma_previous_frame_no_marker(ents: Seq<Option<Entity>>, events: Seq<Contacts>)
    requires
        forall|i: int| 0 <= i < events.len() ==> (#[trigger] events[i]).during_previous_frame,
    ensures
        collide_markers(ents, events) == Seq::<MarkerRequest>::empty(),
    decreases events.len(),
{
    if events.len() > 0 {
        lemma_previous_frame_no_marker(ents, events.drop_last());
        assert(collide_markers(ents, events) =~= Seq::<MarkerRequest>::empty());
    }
}

/// Every coordinate of `v` is within `n` summands of magnitude `x` each.
pub open spec fn sum_bounded(v: Vec3, n: int, x: int) -> bool {
    &&& -(n * x) <= v.x <= n * x
    &&& -(n * x) <= v.y <= n * x
    &&& -(n * x) <= v.z <= n * x
}

/// Every coordinate of `v` is within the largest magnitude a manifold
/// centroid can take.
pub open spec fn centroid_bounded(v: Vec3) -> bool {
    &&& -((MAX_POINTS as int) * (CONTACT_LIMIT as int)) <= v.x <= (MAX_POINTS as int) * (
    CONTACT_LIMIT as int)
    &&& -((MAX_POINTS as int) * (CONTACT_LIMIT as int)) <= v.y <= (MAX_POINTS as int) * (
    CONTACT_LIMIT as int)
    &&& -((MAX_POINTS as int) * (CONTACT_LIMIT as int)) <= v.z <= (MAX_POINTS as int) * (
    CONTACT_LIMIT as int)
}

/// Computes both centroids of one manifold.
fn manifold_centroids(m: &Manifold) -> (r: (Vec3, Vec3))
    requires
        1 <= m.contacts@.len() <= MAX_POINTS,
        forall|j: int| 0 <= j < m.contacts@.len() ==> point_wf(#[trigger] m.contacts@[j]),
    ensures
        r.0.sv() == centroid1(*m),
        r.1.sv() == centroid2(*m),
        centroid_bounded(r.0),
        centroid_bounded(r.1),
{
    let n = m.contacts.len();
    let mut s1 = Vec3 { x: 0i64, y: 0i64, z: 0i64 };
    let mut s2 = Vec3 { x: 0i64, y: 0i64, z: 0i64 };
    let mut i: usize = 0;
    proof {
        assert(m.contacts@.take(0) =~= Seq::<ContactPoint>::empty());
    }
    while i < n
        invariant
            n == m.contacts@.len(),
            n <= MAX_POINTS,
            i <= n,
            forall|j: int| 0 <= j < n ==> point_wf(#[trigger] m.contacts@[j]),
            s1.sv() == sum1(m.contacts@.take(i as int)),
            s2.sv() == sum2(m.contacts@.take(i as int)),
            sum_bounded(s1, i as int, CONTACT_LIMIT as int),
            sum_bounded(s2, i as int, CONTACT_LIMIT as int),
        decreases n - i,
    {
        let p = m.contacts[i];
        proof {
            assert(m.contacts@.take(i + 1).drop_last() =~= m.contacts@.take(i as int));
            assert(m.contacts@.take(i + 1).last() == m.contacts@[i as int]);
            lemma_mul_step(i as int, CONTACT_LIMIT as int);
            lemma_mul_le(i + 1, MAX_POINTS as int, CONTACT_LIMIT as int);
        }
        s1 = Vec3 { x: s1.x + p.point1.x, y: s1.y + p.point1.y, z: s1.z + p.point1.z };
        s2 = Vec3 { x: s2.x + p.point2.x, y: s2.y + p.point2.y, z: s2.z + p.point2.z };
        i = i + 1;
    }
    proof {
        assert(m.contacts@.take(n as int) =~= m.contacts@);
        lemma_mul_le(n as int, MAX_POINTS as int, CONTACT_LIMIT as int);
        lemma_tdiv_bound(s1.x as int, n as int, (MAX_POINTS as int) * (CONTACT_LIMIT as int));
        lemma_tdiv_bound(s1.y as int, n as int, (MAX_POINTS as int) * (CONTACT_LIMIT as int));
        lemma_tdiv_bound(s1.z as int, n as int, (MAX_POINTS as int) * (CONTACT_LIMIT as int));
        lemma_tdiv_bound(s2.x as int, n as int, (MAX_POINTS as int) * (CONTACT_LIMIT as int));
        lemma_tdiv_bound(s2.y as int, n as int, (MAX_POINTS as int) * (CONTACT_LIMIT as int));
        lemma_tdiv_bound(s2.z as int, n as int, (MAX_POINTS as int) * (CONTACT_LIMIT as int));
    }
    let c1 = Vec3 {
        x: tdiv64(s1.x, n as i64),
        y: tdiv64(s1.y, n as i64),
        z: tdiv64(s1.z, n as i64),
    };
    let c2 = Vec3 {
        x: tdiv64(s2.x, n as i64),
        y: tdiv64(s2.y, n as i64),
        z: tdiv64(s2.z, n as i64),
    };
    (c1, c2)
}

/// Computes the averaged local impact points of one fresh event.
fn event_locals(c: &Contacts) -> (r: (Vec3, Vec3))
    requires
        !c.during_previous_frame,
        event_wf(*c),
    ensures
        r.0.sv() == event_local1(*c),
        r.1.sv() == event_local2(*c),
        centroid_bounded(r.0),
        centroid_bounded(r.1),
{
    let n = c.manifolds.len();
    let mut s1 = Vec3 { x: 0i64, y: 0i64, z: 0i64 };
    let mut s2 = Vec3 { x: 0i64, y: 0i64, z: 0i64 };
    let mut i: usize = 0;
    proof {
        assert(c.manifolds@.take(0) =~= Seq::<Manifold>::empty());
    }
    while i < n
        invariant
            n == c.manifolds@.len(),
            1 <= n <= MAX_POINTS,
            i <= n,
            event_wf(*c),
            !c.during_previous_frame,
            s1.sv() == csum1(c.manifolds@.take(i as int)),
            s2.sv() == csum2(c.manifolds@.take(i as int)),
            sum_bounded(s1, i as int, (MAX_POINTS as int) * (CONTACT_LIMIT as int)),
            sum_bounded(s2, i as int, (MAX_POINTS as int) * (CONTACT_LIMIT as int)),
        decreases n - i,
    {
        let m = &c.manifolds[i];
        let (c1, c2) = manifold_centroids(m);
        proof {
            assert(c.manifolds@.take(i + 1).drop_last() =~= c.manifolds@.take(i as int));
            assert(c.manifolds@.take(i + 1).last() == c.manifolds@[i as int]);
            lemma_mul_step(i as int, (MAX_POINTS as int) * (CONTACT_LIMIT as int));
            lemma_mul_le(i + 1, MAX_POINTS as int, (MAX_POINTS as int) * (CONTACT_LIMIT as int));
        }
        s1 = Vec3 { x: s1.x + c1.x, y: s1.y + c1.y, z: s1.z + c1.z };
        s2 = Vec3 { x: s2.x + c2.x, y: s2.y + c2.y, z: s2.z + c2.z };
        i = i + 1;
    }
    proof {
        assert(c.manifolds@.take(n as int) =~= c.manifolds@);
        lemma_mul_le(n as int, MAX_POINTS as int, (MAX_POINTS as int) * (CONTACT_LIMIT as int));
        lemma_div_back(s1.x as int, n as int);
        lemma_div_back(s1.y as int, n as int);
        lemma_div_back(s1.z as int, n as int);
        lemma_div_back(s2.x as int, n as int);
        lemma_div_back(s2.y as int, n as int);
        lemma_div_back(s2.z as int, n as int);
    }
    let l1 = Vec3 {
        x: tdiv64(s1.x, n as i64),
        y: tdiv64(s1.y, n as i64),
        z: tdiv64(s1.z, n as i64),
    };
    let l2 = Vec3 {
        x: tdiv64(s2.x, n as i64),
        y: tdiv64(s2.y, n as i64),
        z: tdiv64(s2.z, n as i64),
    };
    (l1, l2)
}

/// Dividing a sum of `n` manifold centroids by `n` lands back within one
/// centroid bound.
proof fn lemma_div_back(s: int, n: int)
    requires
        1 <= n <= MAX_POINTS,
        -(n * ((MAX_POINTS as int) * (CONTACT_LIMIT as int))) <= s <= n * ((MAX_POINTS as int) * (
        CONTACT_LIMIT as int)),
    ensures
        -((MAX_POINTS as int) * (CONTACT_LIMIT as int)) <= tdiv(s, n) <= (MAX_POINTS as int) * (
        CONTACT_LIMIT as int),
{
    if s >= 0 {
        assert(0 <= s / n <= (MAX_POINTS as int) * (CONTACT_LIMIT as int)) by (nonlinear_arith)
            requires
                1 <= n,
                0 <= s <= n * ((MAX_POINTS as int) * (CONTACT_LIMIT as int)),
        ;
    } else {
        assert(0 <= (-s) / n <= (MAX_POINTS as int) * (CONTACT_LIMIT as int)) by (nonlinear_arith)
            requires
                1 <= n,
                0 <= -s <= n * ((MAX_POINTS as int) * (CONTACT_LIMIT as int)),
        ;
    }
}

/// Consumes a batch of collision events against the current registry and
/// returns the impact-marker requests, two per fresh resolvable event.
/// Events whose contact already existed during the previous frame, and
/// events naming a participant that can no longer be resolved, request
/// nothing.
pub fn collide(world: &World, events: &Vec<Contacts>) -> (r: Vec<MarkerRequest>)
    requires
        world.wf(),
        forall|i: int| 0 <= i < events@.len() ==> event_wf(#[trigger] events@[i]),
    ensures
        r@ == collide_markers(world.ents@, events@),
{
    let mut r: Vec<MarkerRequest> = Vec::new();
    let n = events.len();
    let mut i: usize = 0;
    proof {
        assert(events@.take(0) =~= Seq::<Contacts>::empty());
        assert(r@ =~= collide_markers(world.ents@, events@.take(0)));
    }
    while i < n
        invariant
            n == events@.len(),
            i <= n,
            world.wf(),
            forall|k: int| 0 <= k < events@.len() ==> event_wf(#[trigger] events@[k]),
            r@ == collide_markers(world.ents@, events@.take(i as int)),
        decreases n - i,
    {
        let c = &events[i];
        proof {
            assert(events@.take(i + 1).drop_last() =~= events@.take(i as int));
            assert(events@.take(i + 1).last() == events@[i as int]);
        }
        if !c.during_previous_frame {
            let ok1 = resolve(world, c.entity1);
            let ok2 = resolve(world, c.entity2);
            if ok1 && ok2 {
                let (l1, l2) = event_locals(c);
                let e1 = world.ents[c.entity1].unwrap();
                let e2 = world.ents[c.entity2].unwrap();
                let r1 = apply_rotation(&e1.transform.rotation, l1);
                let r2 = apply_rotation(&e2.transform.rotation, l2);
                let p1 = Vec3 {
                    x: e1.transform.translation.x + r1.x,
                    y: e1.transform.translation.y + r1.y,
                    z: e1.transform.translation.z + r1.z,
                };
                let p2 = Vec3 {
                    x: e2.transform.translation.x + r2.x,
                    y: e2.transform.translation.y + r2.y,
                    z: e2.transform.translation.z + r2.z,
                };
                r.push(MarkerRequest { position: p1 });
                r.push(MarkerRequest { position: p2 });
            }
        }
        i = i + 1;
    }
    proof {
        assert(events@.take(n as int) =~= events@);
    }
    r
}

/// Whether an event participant still resolves to a collider-carrying body.
fn resolve(world: &World, h: usize) -> (r: bool)
    ensures
        r == resolved(world.ents@, h as int),
{
    h < world.ents.len() && world.ents[h].is_some() && world.ents[h].as_ref().unwrap().collider_mesh.is_some()
}

} // verus!
