use std::collections::HashMap;
use vstd::prelude::*;

verus! {

broadcast use vstd::std_specs::hash::group_hash_axioms;

/// The state of `SparseDescriptors`: the index of each resource, which
/// indices are free again, and the next new index.
struct Slots {
    resources: HashMap<u64, u32>,
    free: Vec<bool>,
    next: u32,
}

impl Slots {
    /// The index assigned to each resource.
    spec fn indices(&self) -> Map<u64, u32> {
        self.resources@
    }

    /// Whether index `i` was freed and is available again.
    spec fn is_free(&self, i: int) -> bool {
        0 <= i < self.free@.len() && self.free@[i]
    }

    /// One past the highest index handed out and not given back last.
    spec fn next(&self) -> u32 {
        self.next
    }

    spec fn wf(&self) -> bool {
        &&& self.free@.len() == self.next
        &&& forall|k: u64| #[trigger] self.resources@.contains_key(k) ==> self.resources@[k] < self.next
        &&& forall|k: u64| #[trigger] self.resources@.contains_key(k) ==> !self.free@[self.resources@[k] as int]
        &&& forall|k1: u64, k2: u64|
            #[trigger] self.resources@.contains_key(k1) && #[trigger] self.resources@.contains_key(k2) && k1 != k2
                ==> self.resources@[k1] != self.resources@[k2]
    }

    fn new() -> (r: Self)
        ensures
            r.wf(),
            r.indices() == Map::<u64, u32>::empty(),
            r.next() == 0,
            forall|i: int| !r.is_free(i),
    {
        Slots { resources: HashMap::new(), free: Vec::new(), next: 0 }
    }

    fn first_free(&self) -> (r: Option<usize>)
        requires
            self.wf(),
        ensures
            match r {
                Some(i) => self.is_free(i as int) && forall|j: int| 0 <= j < i ==> !self.is_free(j),
                None => forall|j: int| !self.is_free(j),
            },
    {
        let mut i: usize = 0;
        while i < self.free.len()
            invariant
                i <= self.free@.len(),
                forall|j: int| 0 <= j < i ==> !self.is_free(j),
            decreases self.free@.len() - i,
        {
            if self.free[i] {
                return Some(i);
            }
            i = i + 1;
        }
        None
    }

    /// Returns the index of `resource` and whether it was just assigned.
    /// A new resource takes the lowest freed index, or else `next()`.
    fn index(&mut self, resource: u64) -> (r: (u32, bool))
        requires
            old(self).wf(),
            !old(self).indices().contains_key(resource) && (forall|j: int| !old(self).is_free(j))
                ==> old(self).next() < u32::MAX,
        ensures
            final(self).wf(),
            if old(self).indices().contains_key(resource) {
                &&& r == (old(self).indices()[resource], false)
                &&& final(self).indices() == old(self).indices()
                &&& final(self).next() == old(self).next()
                &&& forall|j: int| final(self).is_free(j) == old(self).is_free(j)
            } else if exists|j: int| old(self).is_free(j) {
                &&& r.1
                &&& old(self).is_free(r.0 as int)
                &&& forall|j: int| 0 <= j < r.0 ==> !old(self).is_free(j)
                &&& final(self).indices() == old(self).indices().insert(resource, r.0)
                &&& final(self).next() == old(self).next()
                &&& forall|j: int| final(self).is_free(j) == (old(self).is_free(j) && j != r.0)
            } else {
                &&& r == (old(self).next(), true)
                &&& final(self).indices() == old(self).indices().insert(resource, r.0)
                &&& final(self).next() == old(self).next() + 1
                &&& forall|j: int| !final(self).is_free(j)
            },
    {
        match self.resources.get(&resource) {
            Some(index) => {
                return (*index, false);
            }
            None => {}
        }
        match self.first_free() {
            Some(i) => {
                self.free.set(i, false);
                let index: u32 = i as u32;
                self.resources.insert(resource, index);
                proof {
                    assert forall|k: u64| #[trigger] self.resources@.contains_key(k) implies !self.free@[self.resources@[k] as int] by {
                        if k != resource {
                            assert(old(self).resources@.contains_key(k));
                        }
                    }
                }
                (index, true)
            }
            None => {
                self.next = self.next + 1;
                self.free.push(false);
                let index: u32 = self.next - 1;
                self.resources.insert(resource, index);
                proof {
                    assert forall|j: int| !self.is_free(j) by {
                        if 0 <= j < old(self).free@.len() {
                            assert(!old(self).is_free(j));
                        }
                    }
                }
                (index, true)
            }
        }
    }

    /// Gives back the index of `resource`, if it has one. The highest index
    /// lowers `next()`; any other becomes free.
    fn remove(&mut self, resource: &u64) -> (r: Option<u32>)
        requires
            old(self).wf(),
        ensures
            final(self).wf(),
            if old(self).indices().contains_key(*resource) {
                let v = old(self).indices()[*resource];
                &&& r == Some(v)
                &&& final(self).indices() == old(self).indices().remove(*resource)
                &&& if v == old(self).next() - 1 {
                    &&& final(self).next() == v
                    &&& forall|j: int| final(self).is_free(j) == (old(self).is_free(j) && j < v)
                } else {
                    &&& final(self).next() == old(self).next()
                    &&& forall|j: int| final(self).is_free(j) == (old(self).is_free(j) || j == v)
                }
            } else {
                &&& r.is_none()
                &&& final(self).indices() == old(self).indices()
                &&& final(self).next() == old(self).next()
                &&& forall|j: int| final(self).is_free(j) == old(self).is_free(j)
            },
    {
        match self.resources.remove(resource) {
            Some(value) => {
                if value == self.next - 1 {
                    self.next = self.next - 1;
                    self.free.pop();
                    proof {
                        assert forall|j: int| #![auto] old(self).is_free(j) implies j < value by {
                            assert(j < old(self).free@.len());
                        }
                    }
                } else {
                    self.free.set(value as usize, true);
                }
                Some(value)
            }
            None => None,
        }
    }
}

/// Assigns small, reusable descriptor indices to resources, identified by id.
/// Indices freed by removal are handed out again, lowest first, before new ones.
pub struct SparseDescriptors {
    slots: Slots,
}

impl SparseDescriptors {
    #[verifier::type_invariant]
    spec fn inv(self) -> bool {
        self.slots.wf()
    }

    /// The index assigned to each resource.
    pub closed spec fn indices(&self) -> Map<u64, u32> {
        self.slots.indices()
    }

    /// Whether index `i` was freed and is available again.
    pub closed spec fn is_free(&self, i: int) -> bool {
        self.slots.is_free(i)
    }

    /// One past the highest index handed out and not given back last.
    pub closed spec fn next(&self) -> u32 {
        self.slots.next()
    }

    /// What every `SparseDescriptors` keeps: indices below `next()`, none
    /// free while assigned, and no index shared.
    pub closed spec fn wf(&self) -> bool {
        self.slots.wf()
    }

    pub fn new() -> (r: Self)
        ensures
            r.wf(),
            r.indices() == Map::<u64, u32>::empty(),
            r.next() == 0,
            forall|i: int| !r.is_free(i),
    {
        SparseDescriptors { slots: Slots::new() }
    }

    /// Returns the index of `resource` and whether it was just assigned.
    /// A new resource takes the lowest freed index, or else `next()`.
    pub fn index(&mut self, resource: u64) -> (r: (u32, bool))
        requires
            !old(self).indices().contains_key(resource) && (forall|j: int| !old(self).is_free(j))
                ==> old(self).next() < u32::MAX,
        ensures
            final(self).wf(),
            if old(self).indices().contains_key(resource) {
                &&& r == (old(self).indices()[resource], false)
                &&& final(self).indices() == old(self).indices()
                &&& final(self).next() == old(self).next()
                &&& forall|j: int| final(self).is_free(j) == old(self).is_free(j)
            } else if exists|j: int| old(self).is_free(j) {
                &&& r.1
                &&& old(self).is_free(r.0 as int)
                &&& forall|j: int| 0 <= j < r.0 ==> !old(self).is_free(j)
                &&& final(self).indices() == old(self).indices().insert(resource, r.0)
                &&& final(self).next() == old(self).next()
                &&& forall|j: int| final(self).is_free(j) == (old(self).is_free(j) && j != r.0)
            } else {
                &&& r == (old(self).next(), true)
                &&& final(self).indices() == old(self).indices().insert(resource, r.0)
                &&& final(self).next() == old(self).next() + 1
                &&& forall|j: int| !final(self).is_free(j)
            },
    {
        proof {
            use_type_invariant(&*self);
        }
        let mut taken = SparseDescriptors::new();
        std::mem::swap(self, &mut taken);
        proof {
            use_type_invariant(&taken);
        }
        let SparseDescriptors { mut slots } = taken;
        let ghost before = slots;
        let r = slots.index(resource);
        let ghost after = slots;
        *self = SparseDescriptors { slots };
        proof {
            assert forall|j: int| #![trigger old(self).is_free(j)] #![trigger before.is_free(j)]
                old(self).is_free(j) == before.is_free(j) by {}
            assert forall|j: int| #![trigger self.is_free(j)] #![trigger after.is_free(j)]
                self.is_free(j) == after.is_free(j) by {}
        }
        r
    }

    /// Gives back the index of `resource`, if it has one. The highest index
    /// lowers `next()`; any other becomes free.
    pub fn _remove(&mut self, resource: &u64) -> (r: Option<u32>)
        ensures
            final(self).wf(),
            if old(self).indices().contains_key(*resource) {
                let v = old(self).indices()[*resource];
                &&& r == Some(v)
                &&& final(self).indices() == old(self).indices().remove(*resource)
                &&& if v == old(self).next() - 1 {
                    &&& final(self).next() == v
                    &&& forall|j: int| final(self).is_free(j) == (old(self).is_free(j) && j < v)
                } else {
                    &&& final(self).next() == old(self).next()
                    &&& forall|j: int| final(self).is_free(j) == (old(self).is_free(j) || j == v)
                }
            } else {
                &&& r.is_none()
                &&& final(self).indices() == old(self).indices()
                &&& final(self).next() == old(self).next()
                &&& forall|j: int| final(self).is_free(j) == old(self).is_free(j)
            },
    {
        proof {
            use_type_invariant(&*self);
        }
        let mut taken = SparseDescriptors::new();
        std::mem::swap(self, &mut taken);
        proof {
            use_type_invariant(&taken);
        }
        let SparseDescriptors { mut slots } = taken;
        let ghost before = slots;
        let r = slots.remove(resource);
        let ghost after = slots;
        *self = SparseDescriptors { slots };
        proof {
            assert forall|j: int| #![trigger old(self).is_free(j)] #![trigger before.is_free(j)]
                old(self).is_free(j) == before.is_free(j) by {}
            assert forall|j: int| #![trigger self.is_free(j)] #![trigger after.is_free(j)]
                self.is_free(j) == after.is_free(j) by {}
        }
        r
    }
}

/// The lowest free index, where one is free.
pub open spec fn lowest_free(d: SparseDescriptors) -> int {
    choose|j: int| d.is_free(j) && forall|k: int| 0 <= k < j ==> !d.is_free(k)
}

/// The index `index` gives `resource`: the one it has, else the lowest free
/// index, else `next()`.
pub open spec fn assigned_index(d: SparseDescriptors, resource: u64) -> int {
    if d.indices().contains_key(resource) {
        d.indices()[resource] as int
    } else if exists|j: int| d.is_free(j) {
        lowest_free(d)
    } else {
        d.next() as int
    }
}

/// The slot a shader uses for an optional texture: 0 for none, else the
/// texture's descriptor index plus one. Also gives the descriptor element to
/// write when the texture had no index yet.
pub fn shader_texture_index(descriptors: &mut SparseDescriptors, texture: Option<u64>) -> (r: (u32, Option<u32>))
    requires
        texture matches Some(id) ==> (!old(descriptors).indices().contains_key(id)
            && (forall|j: int| !old(descriptors).is_free(j)) ==> old(descriptors).next() < u32::MAX),
    ensures
        final(descriptors).wf(),
        match texture {
            None => r == (0u32, None::<u32>) && final(descriptors).indices() == old(descriptors).indices(),
            Some(id) => {
                let i = assigned_index(*old(descriptors), id);
                &&& r.0 == i + 1
                &&& r.1 == (if old(descriptors).indices().contains_key(id) { None } else { Some(i as u32) })
                &&& final(descriptors).indices() == old(descriptors).indices().insert(id, i as u32)
            },
        },
{
    proof {
        use_type_invariant(&*descriptors);
    }
    match texture {
        None => (0, None),
        Some(id) => {
            let ghost before = *descriptors;
            let (index, new) = descriptors.index(id);
            proof {
                use_type_invariant(&*descriptors);
                law_indices_distinct(&*descriptors, id, id);
                if !before.indices().contains_key(id) && exists|j: int| before.is_free(j) {
                    let l = lowest_free(before);
                    assert(before.is_free(index as int) && forall|k: int| 0 <= k < index ==> !before.is_free(k));
                    if l != index {
                        if l < index {
                            assert(!before.is_free(l));
                        } else {
                            assert(!before.is_free(index as int)) by {
                                assert(forall|k: int| 0 <= k < l ==> !before.is_free(k));
                            }
                        }
                    }
                } else if before.indices().contains_key(id) {
                    assert(before.indices().insert(id, index) =~= before.indices());
                }
            }
            if new {
                (index + 1, Some(index))
            } else {
                (index + 1, None)
            }
        },
    }
}

/// Distinct resources never share an index, and no assigned index is free.
pub proof fn law_indices_distinct(d: &SparseDescriptors, k1: u64, k2: u64)
    requires
        d.wf(),
        d.indices().contains_key(k1),
        d.indices().contains_key(k2),
    ensures
        k1 != k2 ==> d.indices()[k1] != d.indices()[k2],
        !d.is_free(d.indices()[k1] as int),
        d.indices()[k1] < d.next(),
{
}

} // verus!
