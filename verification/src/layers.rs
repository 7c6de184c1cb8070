//! Collision-layer configuration: projectiles and scene objects live on two
//! layers whose filters are pairwise exclusive, so a body only ever collides
//! with bodies of the other layer.

use vstd::prelude::*;

verus! {

/// The two collision layers of the scene.
#[derive(Clone, Copy, PartialEq, Eq, Structural, Debug)]
pub enum Layer {
    Ammo,
    Object,
}

/// A subset of the layers.
#[derive(Clone, Copy, PartialEq, Eq, Structural, Debug)]
pub struct LayerMask {
    pub ammo: bool,
    pub object: bool,
}

impl LayerMask {
    pub open spec fn contains(self, layer: Layer) -> bool {
        match layer {
            Layer::Ammo => self.ammo,
            Layer::Object => self.object,
        }
    }
}

/// A body's collision configuration: the layers it belongs to and the
/// layers it is willing to collide with.
#[derive(Clone, Copy, PartialEq, Eq, Structural, Debug)]
pub struct CollisionLayers {
    pub memberships: LayerMask,
    pub filters: LayerMask,
}

/// `a` notices `b` when some layer `b` belongs to passes `a`'s filter.
pub open spec fn notices(a: CollisionLayers, b: CollisionLayers) -> bool {
    (a.filters.ammo && b.memberships.ammo) || (a.filters.object && b.memberships.object)
}

/// Two bodies collide only when each notices the other.
pub open spec fn interacts(a: CollisionLayers, b: CollisionLayers) -> bool {
    notices(a, b) && notices(b, a)
}

impl Layer {
    /// The configuration each layer hands to a body: membership in itself,
    /// a filter admitting exactly the other layer.
    pub open spec fn config_spec(self) -> CollisionLayers {
        match self {
            Layer::Ammo => CollisionLayers {
                memberships: LayerMask { ammo: true, object: false },
                filters: LayerMask { ammo: false, object: true },
            },
            Layer::Object => CollisionLayers {
                memberships: LayerMask { ammo: false, object: true },
                filters: LayerMask { ammo: true, object: false },
            },
        }
    }

    pub fn config(&self) -> (r: CollisionLayers)
        ensures
            r == self.config_spec(),
    {
        match self {
            Layer::Ammo => CollisionLayers {
                memberships: LayerMask { ammo: true, object: false },
                filters: LayerMask { ammo: false, object: true },
            },
            Layer::Object => CollisionLayers {
                memberships: LayerMask { ammo: false, object: true },
                filters: LayerMask { ammo: true, object: false },
            },
        }
    }
}

/// Law: under the two-layer configuration, bodies collide exactly when they
/// sit on different layers — ammo with objects and objects with ammo, never
/// ammo with ammo nor object with object.
pub proof fn lemma_layers_pairwise_exclusive(a: Layer, b: Layer)
    ensures
        interacts(a.config_spec(), b.config_spec()) <==> a != b,
{
}

} // verus!
