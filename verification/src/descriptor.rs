use vstd::prelude::*;

verus! {

/// Number of distinct descriptor types.
pub const DESCRIPTOR_TYPES_COUNT: usize = 12;

/// Kind of a descriptor, numbered `0..DESCRIPTOR_TYPES_COUNT` in declaration order.
#[derive(Clone, Copy, Debug, PartialEq, Eq, Structural, Hash)]
pub enum DescriptorType {
    Sampler,
    CombinedImageSampler,
    SampledImage,
    StorageImage,
    UniformTexelBuffer,
    StorageTexelBuffer,
    UniformBuffer,
    StorageBuffer,
    UniformBufferDynamic,
    StorageBufferDynamic,
    InputAttachment,
    AccelerationStructure,
}

/// The number of a descriptor type.
pub open spec fn type_index(ty: DescriptorType) -> int {
    match ty {
        DescriptorType::Sampler => 0,
        DescriptorType::CombinedImageSampler => 1,
        DescriptorType::SampledImage => 2,
        DescriptorType::StorageImage => 3,
        DescriptorType::UniformTexelBuffer => 4,
        DescriptorType::StorageTexelBuffer => 5,
        DescriptorType::UniformBuffer => 6,
        DescriptorType::StorageBuffer => 7,
        DescriptorType::UniformBufferDynamic => 8,
        DescriptorType::StorageBufferDynamic => 9,
        DescriptorType::InputAttachment => 10,
        DescriptorType::AccelerationStructure => 11,
    }
}

/// The descriptor type with a given number.
pub open spec fn type_at(index: int) -> DescriptorType {
    if index == 0 {
        DescriptorType::Sampler
    } else if index == 1 {
        DescriptorType::CombinedImageSampler
    } else if index == 2 {
        DescriptorType::SampledImage
    } else if index == 3 {
        DescriptorType::StorageImage
    } else if index == 4 {
        DescriptorType::UniformTexelBuffer
    } else if index == 5 {
        DescriptorType::StorageTexelBuffer
    } else if index == 6 {
        DescriptorType::UniformBuffer
    } else if index == 7 {
        DescriptorType::StorageBuffer
    } else if index == 8 {
        DescriptorType::UniformBufferDynamic
    } else if index == 9 {
        DescriptorType::StorageBufferDynamic
    } else if index == 10 {
        DescriptorType::InputAttachment
    } else {
        DescriptorType::AccelerationStructure
    }
}

impl DescriptorType {
    /// The number of this descriptor type.
    pub fn index(self) -> (r: usize)
        ensures
            r == type_index(self),
            r < DESCRIPTOR_TYPES_COUNT,
    {
        match self {
            DescriptorType::Sampler => 0,
            DescriptorType::CombinedImageSampler => 1,
            DescriptorType::SampledImage => 2,
            DescriptorType::StorageImage => 3,
            DescriptorType::UniformTexelBuffer => 4,
            DescriptorType::StorageTexelBuffer => 5,
            DescriptorType::UniformBuffer => 6,
            DescriptorType::StorageBuffer => 7,
            DescriptorType::UniformBufferDynamic => 8,
            DescriptorType::StorageBufferDynamic => 9,
            DescriptorType::InputAttachment => 10,
            DescriptorType::AccelerationStructure => 11,
        }
    }
}

/// Maps a descriptor type number back to the type.
pub fn descriptor_type_from_index(index: usize) -> (r: DescriptorType)
    requires
        index < DESCRIPTOR_TYPES_COUNT,
    ensures
        r == type_at(index as int),
        type_index(r) == index,
{
    match index {
        0 => DescriptorType::Sampler,
        1 => DescriptorType::CombinedImageSampler,
        2 => DescriptorType::SampledImage,
        3 => DescriptorType::StorageImage,
        4 => DescriptorType::UniformTexelBuffer,
        5 => DescriptorType::StorageTexelBuffer,
        6 => DescriptorType::UniformBuffer,
        7 => DescriptorType::StorageBuffer,
        8 => DescriptorType::UniformBufferDynamic,
        9 => DescriptorType::StorageBufferDynamic,
        10 => DescriptorType::InputAttachment,
        _ => DescriptorType::AccelerationStructure,
    }
}

/// One binding of a descriptor set layout: `count` descriptors of type `ty` at `binding`.
#[derive(Clone, Copy, Debug, PartialEq, Eq, Structural, Hash)]
pub struct DescriptorSetLayoutBinding {
    pub binding: u32,
    pub ty: DescriptorType,
    pub count: u32,
}

/// Number of descriptors of type `ty` that a pool must hold.
#[derive(Clone, Copy, Debug, PartialEq, Eq, Structural, Hash)]
pub struct DescriptorPoolSize {
    pub ty: DescriptorType,
    pub descriptor_count: u32,
}

/// Total number of descriptors of the type numbered `t` over `bindings`.
pub open spec fn total_of_type(bindings: Seq<DescriptorSetLayoutBinding>, t: int) -> int
    decreases bindings.len(),
{
    if bindings.len() == 0 {
        0
    } else {
        total_of_type(bindings.drop_last(), t) + if type_index(bindings.last().ty) == t {
            bindings.last().count as int
        } else {
            0
        }
    }
}

/// Every type's total over `bindings` fits in `u32`.
pub open spec fn totals_fit(bindings: Seq<DescriptorSetLayoutBinding>) -> bool {
    forall|t: int| 0 <= t < DESCRIPTOR_TYPES_COUNT ==> #[trigger] total_of_type(bindings, t) <= u32::MAX
}

/// The pool sizes for the first `n` per-type counts: one entry per type with a
/// nonzero count, in type order.
pub open spec fn pool_sizes_upto(sizes: Seq<u32>, n: int) -> Seq<DescriptorPoolSize>
    decreases n,
{
    if n <= 0 {
        Seq::empty()
    } else if sizes[n - 1] > 0 {
        pool_sizes_upto(sizes, n - 1).push(DescriptorPoolSize { ty: type_at(n - 1), descriptor_count: sizes[n - 1] })
    } else {
        pool_sizes_upto(sizes, n - 1)
    }
}

/// The pool sizes for all per-type counts.
pub open spec fn pool_sizes(sizes: Seq<u32>) -> Seq<DescriptorPoolSize> {
    pool_sizes_upto(sizes, DESCRIPTOR_TYPES_COUNT as int)
}

pub proof fn lemma_pool_sizes_len(sizes: Seq<u32>, n: int)
    requires
        0 <= n,
    ensures
        pool_sizes_upto(sizes, n).len() <= n,
    decreases n,
{
    if n > 0 {
        lemma_pool_sizes_len(sizes, n - 1);
    }
}

/// Counts descriptors per type.
#[derive(Clone, Copy, Debug)]
pub struct DescriptorSizesBuilder {
    sizes: [u32; 12],
}

impl DescriptorSizesBuilder {
    /// Count of descriptors per type number.
    pub closed spec fn counts(&self) -> Seq<u32> {
        self.sizes@
    }

    /// A builder holds one count for each descriptor type.
    pub proof fn lemma_counts_len(&self)
        ensures
            self.counts().len() == DESCRIPTOR_TYPES_COUNT,
    {
    }

    /// Creates new instance without descriptors.
    pub fn zero() -> (r: Self)
        ensures
            r.counts().len() == DESCRIPTOR_TYPES_COUNT,
            forall|t: int| 0 <= t < DESCRIPTOR_TYPES_COUNT ==> #[trigger] r.counts()[t] == 0,
    {
        DescriptorSizesBuilder { sizes: [0u32; 12] }
    }

    /// Adds a single layout binding.
    pub fn add_binding(&mut self, binding: &DescriptorSetLayoutBinding)
        requires
            old(self).counts()[type_index(binding.ty)] + binding.count <= u32::MAX,
        ensures
            final(self).counts().len() == DESCRIPTOR_TYPES_COUNT,
            final(self).counts() == old(self).counts().update(
                type_index(binding.ty),
                (old(self).counts()[type_index(binding.ty)] + binding.count) as u32,
            ),
    {
        let i: usize = binding.ty.index();
        let v: u32 = self.sizes[i] + binding.count;
        self.sizes[i] = v;
    }

    /// Calculates counts from bindings.
    pub fn from_bindings(bindings: &[DescriptorSetLayoutBinding]) -> (r: Self)
        requires
            totals_fit(bindings@),
        ensures
            r.counts().len() == DESCRIPTOR_TYPES_COUNT,
            forall|t: int| 0 <= t < DESCRIPTOR_TYPES_COUNT ==> #[trigger] r.counts()[t] == total_of_type(bindings@, t),
    {
        let mut ranges = Self::zero();
        let mut k: usize = 0;
        while k < bindings.len()
            invariant
                k <= bindings.len(),
                totals_fit(bindings@),
                ranges.counts().len() == DESCRIPTOR_TYPES_COUNT,
                forall|t: int| 0 <= t < DESCRIPTOR_TYPES_COUNT ==>
                    #[trigger] ranges.counts()[t] == total_of_type(bindings@.subrange(0, k as int), t),
            decreases bindings.len() - k,
        {
            let ghost prefix = bindings@.subrange(0, k as int);
            let ghost next = bindings@.subrange(0, k + 1);
            proof {
                assert(next.drop_last() =~= prefix);
                lemma_total_prefix_le(bindings@, k + 1, type_index(bindings@[k as int].ty));
            }
            ranges.add_binding(&bindings[k]);
            k = k + 1;
        }
        assert(bindings@.subrange(0, bindings.len() as int) =~= bindings@);
        ranges
    }

    /// Lists the nonzero counts, in type order.
    pub fn build(self) -> (r: DescriptorSizes)
        ensures
            r.pool_sizes() == pool_sizes(self.counts()),
    {
        let zero = DescriptorPoolSize { ty: DescriptorType::Sampler, descriptor_count: 0 };
        let mut sizes = [zero; 12];
        let mut count: u8 = 0;
        let mut i: usize = 0;
        while i < DESCRIPTOR_TYPES_COUNT
            invariant
                i <= DESCRIPTOR_TYPES_COUNT,
                self.sizes@.len() == DESCRIPTOR_TYPES_COUNT,
                count as int == pool_sizes_upto(self.sizes@, i as int).len(),
                count as int <= i,
                sizes@.len() == DESCRIPTOR_TYPES_COUNT,
                sizes@.subrange(0, count as int) == pool_sizes_upto(self.sizes@, i as int),
            decreases DESCRIPTOR_TYPES_COUNT - i,
        {
            let size: u32 = self.sizes[i];
            if size > 0 {
                let ghost before = sizes@;
                sizes[count as usize] = DescriptorPoolSize { ty: descriptor_type_from_index(i), descriptor_count: size };
                proof {
                    assert(sizes@.subrange(0, count + 1) =~= before.subrange(0, count as int).push(
                        DescriptorPoolSize { ty: type_at(i as int), descriptor_count: size }));
                }
                count = count + 1;
            }
            i = i + 1;
        }
        DescriptorSizes { sizes, count }
    }
}

proof fn lemma_total_prefix_le(bindings: Seq<DescriptorSetLayoutBinding>, n: int, t: int)
    requires
        0 <= n <= bindings.len(),
        totals_fit(bindings),
        0 <= t < DESCRIPTOR_TYPES_COUNT,
    ensures
        total_of_type(bindings.subrange(0, n), t) <= u32::MAX,
    decreases bindings.len() - n,
{
    if n < bindings.len() {
        let next = bindings.subrange(0, n + 1);
        assert(next.drop_last() =~= bindings.subrange(0, n));
        lemma_total_prefix_le(bindings, n + 1, t);
    } else {
        assert(bindings.subrange(0, n) =~= bindings);
    }
}

/// Number of descriptors per type, for the types that have any.
#[derive(Clone, Copy, Debug)]
pub struct DescriptorSizes {
    sizes: [DescriptorPoolSize; 12],
    count: u8,
}

impl DescriptorSizes {
    /// The pool sizes held, in type order.
    pub closed spec fn pool_sizes(&self) -> Seq<DescriptorPoolSize> {
        self.sizes@.subrange(0, self.count as int)
    }

    #[verifier::type_invariant]
    spec fn count_in_range(&self) -> bool {
        self.count <= DESCRIPTOR_TYPES_COUNT
    }

    pub fn as_slice(&self) -> (r: &[DescriptorPoolSize])
        ensures
            r@ == self.pool_sizes(),
    {
        proof {
            use_type_invariant(self);
        }
        let n: usize = self.count as usize;
        &self.sizes.as_slice()[0..n]
    }

    /// Calculates the pool sizes for bindings.
    pub fn from_bindings(bindings: &[DescriptorSetLayoutBinding]) -> (r: Self)
        requires
            totals_fit(bindings@),
        ensures
            r.pool_sizes() == pool_sizes(Seq::new(12, |t: int| total_of_type(bindings@, t) as u32)),
    {
        let b = DescriptorSizesBuilder::from_bindings(bindings);
        let ghost c = b.counts();
        let r = b.build();
        assert(c =~= Seq::new(12, |t: int| total_of_type(bindings@, t) as u32));
        r
    }
}


/// How two lists of pool sizes compare: equal on every position both have.
pub open spec fn pool_sizes_agree(a: Seq<DescriptorPoolSize>, b: Seq<DescriptorPoolSize>) -> bool {
    forall|i: int| 0 <= i < a.len() && 0 <= i < b.len() ==> #[trigger] a[i] == #[trigger] b[i]
}

impl PartialEq for DescriptorSizes {
    fn eq(&self, rhs: &Self) -> (r: bool) {
        proof {
            use_type_invariant(self);
            use_type_invariant(rhs);
        }
        let a = self.sizes.as_slice();
        let b = rhs.sizes.as_slice();
        let n: usize = if self.count <= rhs.count { self.count as usize } else { rhs.count as usize };
        let mut i: usize = 0;
        while i < n
            invariant
                i <= n,
                n <= self.count,
                n <= rhs.count,
                n <= 12,
                self.count <= 12,
                rhs.count <= 12,
                a@ == self.sizes@,
                b@ == rhs.sizes@,
                self.sizes@.len() == 12,
                rhs.sizes@.len() == 12,
                forall|j: int| 0 <= j < i ==> self.sizes@[j] == rhs.sizes@[j],
            decreases n - i,
        {
            let l = a[i];
            let r = b[i];
            if !(l.ty == r.ty && l.descriptor_count == r.descriptor_count) {
                proof {
                    assert(self.pool_sizes()[i as int] == l);
                    assert(rhs.pool_sizes()[i as int] == r);
                    assert(!pool_sizes_agree(self.pool_sizes(), rhs.pool_sizes()));
                }
                return false;
            }
            i = i + 1;
        }
        true
    }
}

impl vstd::std_specs::cmp::PartialEqSpecImpl for DescriptorSizes {
    open spec fn obeys_eq_spec() -> bool {
        true
    }

    open spec fn eq_spec(&self, other: &Self) -> bool {
        pool_sizes_agree(self.pool_sizes(), other.pool_sizes())
    }
}

impl Eq for DescriptorSizes {}


/// Per-type totals add up over concatenated binding lists.
pub proof fn law_totals_concat(a: Seq<DescriptorSetLayoutBinding>, b: Seq<DescriptorSetLayoutBinding>, t: int)
    ensures
        total_of_type(a + b, t) == total_of_type(a, t) + total_of_type(b, t),
    decreases b.len(),
{
    if b.len() == 0 {
        assert(a + b =~= a);
    } else {
        assert((a + b).drop_last() =~= a + b.drop_last());
        law_totals_concat(a, b.drop_last(), t);
    }
}

/// The sizes computed from bindings do not depend on the order of two groups
/// of bindings.
pub proof fn law_sizes_ignore_binding_order(a: Seq<DescriptorSetLayoutBinding>, b: Seq<DescriptorSetLayoutBinding>)
    ensures
        pool_sizes(Seq::new(12, |t: int| total_of_type(a + b, t) as u32))
            == pool_sizes(Seq::new(12, |t: int| total_of_type(b + a, t) as u32)),
{
    assert forall|t: int| 0 <= t < 12 implies #[trigger] total_of_type(a + b, t) == total_of_type(b + a, t) by {
        law_totals_concat(a, b, t);
        law_totals_concat(b, a, t);
    }
    assert(Seq::new(12, |t: int| total_of_type(a + b, t) as u32) =~= Seq::new(12, |t: int| total_of_type(b + a, t) as u32));
}

/// Comparing pool sizes is reflexive and symmetric. It is not transitive: it
/// only looks at the positions both lists have.
pub proof fn law_sizes_eq_reflexive_symmetric(a: Seq<DescriptorPoolSize>, b: Seq<DescriptorPoolSize>)
    ensures
        pool_sizes_agree(a, a),
        pool_sizes_agree(a, b) == pool_sizes_agree(b, a),
{
}


/// Type numbers and types correspond one to one.
pub proof fn law_type_numbering(t: int, ty: DescriptorType)
    ensures
        0 <= t < DESCRIPTOR_TYPES_COUNT ==> type_index(type_at(t)) == t,
        type_at(type_index(ty)) == ty,
        0 <= type_index(ty) < DESCRIPTOR_TYPES_COUNT,
{
}

proof fn lemma_pool_sizes_upto(sizes: Seq<u32>, n: int)
    requires
        0 <= n <= DESCRIPTOR_TYPES_COUNT,
        n <= sizes.len(),
    ensures
        ({
            let ps = pool_sizes_upto(sizes, n);
            &&& forall|k: int| 0 <= k < ps.len() ==> {
                &&& 0 <= type_index(#[trigger] ps[k].ty) < n
                &&& ps[k].descriptor_count > 0
                &&& ps[k].descriptor_count == sizes[type_index(ps[k].ty)]
            }
            &&& forall|k1: int, k2: int| 0 <= k1 < k2 < ps.len() ==> type_index(#[trigger] ps[k1].ty) < type_index(#[trigger] ps[k2].ty)
            &&& forall|t: int| 0 <= t < n && #[trigger] sizes[t] > 0 ==> exists|k: int| 0 <= k < ps.len() && type_index(#[trigger] ps[k].ty) == t
        }),
    decreases n,
{
    if n > 0 {
        lemma_pool_sizes_upto(sizes, n - 1);
        law_type_numbering(n - 1, DescriptorType::Sampler);
        let prev = pool_sizes_upto(sizes, n - 1);
        let ps = pool_sizes_upto(sizes, n);
        if sizes[n - 1] > 0 {
            let e = DescriptorPoolSize { ty: type_at(n - 1), descriptor_count: sizes[n - 1] };
            assert(ps == prev.push(e));
            assert forall|t: int| 0 <= t < n && #[trigger] sizes[t] > 0 implies exists|k: int| 0 <= k < ps.len() && type_index(#[trigger] ps[k].ty) == t by {
                if t == n - 1 {
                    assert(type_index(ps[prev.len() as int].ty) == t);
                } else {
                    let k = choose|k: int| 0 <= k < prev.len() && type_index(#[trigger] prev[k].ty) == t;
                    assert(ps[k] == prev[k]);
                }
            }
            assert forall|k: int| 0 <= k < ps.len() implies {
                &&& 0 <= type_index(#[trigger] ps[k].ty) < n
                &&& ps[k].descriptor_count > 0
                &&& ps[k].descriptor_count == sizes[type_index(ps[k].ty)]
            } by {
                if k < prev.len() {
                    assert(ps[k] == prev[k]);
                }
            }
            assert forall|k1: int, k2: int| 0 <= k1 < k2 < ps.len() implies type_index(#[trigger] ps[k1].ty) < type_index(#[trigger] ps[k2].ty) by {
                assert(ps[k1] == prev[k1]);
                if k2 < prev.len() {
                    assert(ps[k2] == prev[k2]);
                }
            }
        } else {
            assert forall|t: int| 0 <= t < n && #[trigger] sizes[t] > 0 implies exists|k: int| 0 <= k < ps.len() && type_index(#[trigger] ps[k].ty) == t by {
                let k = choose|k: int| 0 <= k < prev.len() && type_index(#[trigger] prev[k].ty) == t;
            }
        }
    }
}

/// The pool sizes list each descriptor type that has descriptors exactly
/// once, with its count, in type order, and no type without descriptors.
pub proof fn law_pool_sizes_listing(sizes: Seq<u32>)
    requires
        sizes.len() == DESCRIPTOR_TYPES_COUNT,
    ensures
        ({
            let ps = pool_sizes(sizes);
            &&& forall|k: int| 0 <= k < ps.len() ==> {
                &&& (#[trigger] ps[k]).descriptor_count > 0
                &&& ps[k].descriptor_count == sizes[type_index(ps[k].ty)]
            }
            &&& forall|k1: int, k2: int| 0 <= k1 < k2 < ps.len() ==> type_index(#[trigger] ps[k1].ty) < type_index(#[trigger] ps[k2].ty)
            &&& forall|t: int| 0 <= t < DESCRIPTOR_TYPES_COUNT && #[trigger] sizes[t] > 0 ==>
                exists|k: int| 0 <= k < ps.len() && type_index(#[trigger] ps[k].ty) == t
        }),
{
    lemma_pool_sizes_upto(sizes, DESCRIPTOR_TYPES_COUNT as int);
}

} // verus!
