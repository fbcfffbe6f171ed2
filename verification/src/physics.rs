use vstd::prelude::*;

verus! {

/// Body type defines how an entity is handled by the physics engine.
/// An entity should never change its body type.
#[derive(Clone, Copy, Debug, PartialEq, Eq, Structural, Hash)]
pub enum BodyType {
    /// Static bodies never move.
    Static,
    /// Kinematic bodies collide with others, but the physics system never moves them.
    Kinematic,
    /// Dynamic bodies collide with other bodies and are moved to resolve contacts.
    Dynamic,
}

/// The collision group of a body type.
pub open spec fn group_of(t: BodyType) -> usize {
    match t {
        BodyType::Static => 0,
        BodyType::Kinematic => 1,
        BodyType::Dynamic => 2,
    }
}

/// The groups a body of type `t` may collide with.
pub open spec fn whitelist_of(t: BodyType) -> Seq<usize> {
    match t {
        BodyType::Dynamic => seq![group_of(BodyType::Static), group_of(BodyType::Kinematic), group_of(BodyType::Dynamic)],
        _ => seq![group_of(BodyType::Dynamic)],
    }
}

/// Collision groups by index: those a body belongs to and those it may collide with.
#[derive(Clone, Debug, PartialEq, Eq)]
pub struct CollisionGroups {
    pub membership: Vec<usize>,
    pub whitelist: Vec<usize>,
}

impl BodyType {
    /// The collision group of this body type.
    pub fn group(&self) -> (r: usize)
        ensures
            r == group_of(*self),
    {
        match self {
            BodyType::Static => 0,
            BodyType::Kinematic => 1,
            BodyType::Dynamic => 2,
        }
    }

    /// A body belongs to its own type's group. Dynamic bodies collide with
    /// every type; static and kinematic ones only with dynamic bodies.
    pub fn collision_groups(&self) -> (r: CollisionGroups)
        ensures
            r.membership@ == seq![group_of(*self)],
            r.whitelist@ == whitelist_of(*self),
    {
        let membership = vec![self.group()];
        let whitelist = match self {
            BodyType::Dynamic => vec![
                BodyType::Static.group(),
                BodyType::Kinematic.group(),
                BodyType::Dynamic.group(),
            ],
            _ => vec![BodyType::Dynamic.group()],
        };
        CollisionGroups { membership, whitelist }
    }
}

/// Two bodies may collide when each is in the other's whitelist: exactly the
/// pairs with at least one dynamic body.
pub proof fn law_collisions_need_a_dynamic_body(a: BodyType, b: BodyType)
    ensures
        (whitelist_of(a).contains(group_of(b)) && whitelist_of(b).contains(group_of(a)))
            <==> (a == BodyType::Dynamic || b == BodyType::Dynamic),
{
    let wa = whitelist_of(a);
    let wb = whitelist_of(b);
    if a == BodyType::Dynamic {
        assert(wa[0] == 0 && wa[1] == 1 && wa[2] == 2);
    } else {
        assert(wa[0] == 2);
    }
    if b == BodyType::Dynamic {
        assert(wb[0] == 0 && wb[1] == 1 && wb[2] == 2);
    } else {
        assert(wb[0] == 2);
    }
}

} // verus!
