//! Entities and their components.
//!
//! An entity holds its components in the order in which they were added.
//! A component is looked up by its kind, and the first one of the kind is
//! the one that is found.

use vstd::prelude::*;
use crate::light::Light;
use crate::material::Material;
use crate::mesh::Mesh;
use crate::value::{Isometry3, Vector3, ONE};

verus! {

/// What a component can be.
#[derive(Clone, Copy, Debug, PartialEq, Eq, Structural)]
pub enum ComponentKind {
    Mesh,
    Material,
    Light,
}

/// What a component holds.
#[derive(Debug)]
pub enum ComponentValue {
    Mesh(Mesh),
    Material(Material),
    Light(Light),
}

/// A value attached to an entity, with an identity of its own that stays
/// the same whatever happens to the value.
#[derive(Debug)]
pub struct Component {
    pub id: u64,
    pub value: ComponentValue,
}

/// An entity: a pose, a scale and components in insertion order.
#[derive(Debug)]
pub struct GameObject {
    pub transform: Isometry3,
    pub scale: Vector3,
    pub components: Vec<Component>,
}

impl ComponentValue {
    pub open spec fn spec_kind(&self) -> ComponentKind {
        match self {
            ComponentValue::Mesh(_) => ComponentKind::Mesh,
            ComponentValue::Material(_) => ComponentKind::Material,
            ComponentValue::Light(_) => ComponentKind::Light,
        }
    }

    #[verifier::when_used_as_spec(spec_kind)]
    pub fn kind(&self) -> (k: ComponentKind)
        ensures
            k == self.spec_kind(),
    {
        match self {
            ComponentValue::Mesh(_) => ComponentKind::Mesh,
            ComponentValue::Material(_) => ComponentKind::Material,
            ComponentValue::Light(_) => ComponentKind::Light,
        }
    }
}

impl Component {
    pub fn new(id: u64, value: ComponentValue) -> (c: Component)
        ensures
            c.id == id,
            c.value == value,
    {
        Component { id, value }
    }

    pub fn id(&self) -> (id: u64)
        ensures
            id == self.id,
    {
        self.id
    }
}

/// The position of the first component of the kind, if there is one.
pub open spec fn first_of(components: Seq<Component>, kind: ComponentKind) -> Option<int>
    decreases components.len(),
{
    if components.len() == 0 {
        None
    } else {
        match first_of(components.drop_last(), kind) {
            Some(i) => Some(i),
            None => if components.last().value.kind() == kind {
                Some(components.len() - 1)
            } else {
                None
            },
        }
    }
}

/// `first_of` finds a component of the kind that has none of the kind
/// before it, and finds nothing only where there is none of the kind.
pub proof fn lemma_first_of(components: Seq<Component>, kind: ComponentKind)
    ensures
        match first_of(components, kind) {
            Some(i) => {
                &&& 0 <= i < components.len()
                &&& components[i].value.kind() == kind
                &&& forall|j: int| 0 <= j < i ==> (#[trigger] components[j]).value.kind() != kind
            },
            None => forall|j: int|
                0 <= j < components.len() ==> (#[trigger] components[j]).value.kind() != kind,
        },
    decreases components.len(),
{
    if components.len() > 0 {
        let front = components.drop_last();
        lemma_first_of(front, kind);
        assert(forall|j: int| 0 <= j < front.len() ==> front[j] == components[j]);
    }
}

/// Adding a component changes what is found for a kind only where nothing
/// was found before and the new component is of the kind.
pub proof fn lemma_first_of_push(components: Seq<Component>, added: Component, kind: ComponentKind)
    ensures
        first_of(components.push(added), kind) == match first_of(components, kind) {
            Some(i) => Some(i),
            None => if added.value.kind() == kind {
                Some(components.len() as int)
            } else {
                None
            },
        },
{
    assert(components.push(added).drop_last() =~= components);
}

impl GameObject {
    /// An entity at the identity pose, with unit scale and no components.
    pub fn new() -> (object: GameObject)
        ensures
            object.transform == Isometry3::spec_identity(),
            object.scale == (Vector3 { x: ONE, y: ONE, z: ONE }),
            object.components@.len() == 0,
    {
        GameObject {
            transform: Isometry3::identity(),
            scale: Vector3::splat(ONE),
            components: Vec::new(),
        }
    }

    /// Attaches a component after those that the entity already has.
    pub fn add_component(&mut self, component: Component)
        ensures
            final(self).transform == old(self).transform,
            final(self).scale == old(self).scale,
            final(self).components@ == old(self).components@.push(component),
    {
        self.components.push(component);
    }

    /// The position of the first component of the kind, in insertion
    /// order; `None` where the entity has none of the kind.
    pub fn find_component(&self, kind: ComponentKind) -> (found: Option<usize>)
        ensures
            found.is_some() == first_of(self.components@, kind).is_some(),
            found matches Some(i) ==> first_of(self.components@, kind) == Some(i as int) && i
                < self.components@.len(),
    {
        let mut i: usize = 0;
        while i < self.components.len()
            invariant
                i <= self.components@.len(),
                first_of(self.components@.take(i as int), kind) is None,
            decreases self.components@.len() - i,
        {
            proof {
                assert(self.components@.take(i + 1).drop_last() =~= self.components@.take(
                    i as int,
                ));
                if self.components@[i as int].value.kind() == kind {
                    lemma_first_of_from_prefix(self.components@, kind, i + 1);
                }
            }
            if self.components[i].value.kind() == kind {
                return Some(i);
            }
            i = i + 1;
        }
        proof {
            assert(self.components@.take(i as int) =~= self.components@);
        }
        None
    }
}

/// What is found in a prefix is what is found in the whole.
pub proof fn lemma_first_of_from_prefix(components: Seq<Component>, kind: ComponentKind, n: int)
    requires
        0 <= n <= components.len(),
        first_of(components.take(n), kind) is Some,
    ensures
        first_of(components, kind) == first_of(components.take(n), kind),
    decreases components.len() - n,
{
    if n < components.len() {
        assert(components.take(n + 1).drop_last() =~= components.take(n));
        lemma_first_of_from_prefix(components, kind, n + 1);
    } else {
        assert(components.take(n) =~= components);
    }
}

} // verus!
