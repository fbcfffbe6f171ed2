use vstd::prelude::*;

verus! {

/// Whether vertex data advances per vertex or per instance.
#[derive(Clone, Copy, Debug, PartialEq, Eq, Structural, Hash)]
pub enum VertexInputRate {
    Vertex,
    Instance,
}

/// Describes a single vertex location: its data format and its offset in the element.
#[derive(Clone, Copy, Debug, PartialEq, Eq, Hash)]
pub struct VertexLocation<F> {
    pub format: F,
    pub offset: u32,
}

/// Describes the layout of a vertex buffer element.
#[derive(Clone, Debug, PartialEq, Eq, Hash)]
pub struct VertexLayout<F> {
    pub locations: Vec<VertexLocation<F>>,
    pub stride: u32,
    pub rate: VertexInputRate,
}

/// A vertex buffer binding of a pipeline.
#[derive(Clone, Copy, Debug, PartialEq, Eq, Structural, Hash)]
pub struct VertexInputBinding {
    pub stride: u32,
    pub rate: VertexInputRate,
}

/// A vertex attribute of a pipeline.
#[derive(Clone, Copy, Debug, PartialEq, Eq, Hash)]
pub struct VertexInputAttribute<F> {
    pub location: u32,
    pub format: F,
    pub offset: u32,
    pub binding: u32,
}

/// Number of locations in the first `n` layouts.
pub open spec fn locations_before<F>(layouts: Seq<VertexLayout<F>>, n: int) -> int
    decreases n,
{
    if n <= 0 {
        0
    } else {
        locations_before(layouts, n - 1) + layouts[n - 1].locations@.len()
    }
}

/// The attributes of the first `n` layouts: the locations of layout `b` in
/// order, bound to binding `b`, numbered consecutively from zero over all layouts.
pub open spec fn attributes_upto<F>(layouts: Seq<VertexLayout<F>>, n: int) -> Seq<VertexInputAttribute<F>>
    decreases n,
{
    if n <= 0 {
        Seq::empty()
    } else {
        let base = locations_before(layouts, n - 1);
        let locs = layouts[n - 1].locations@;
        attributes_upto(layouts, n - 1) + Seq::new(locs.len(), |i: int| VertexInputAttribute {
            location: (base + i) as u32,
            format: locs[i].format,
            offset: locs[i].offset,
            binding: (n - 1) as u32,
        })
    }
}

proof fn lemma_locations_mono<F>(layouts: Seq<VertexLayout<F>>, m: int, n: int)
    requires
        0 <= m <= n,
    ensures
        locations_before(layouts, m) <= locations_before(layouts, n),
    decreases n - m,
{
    if m < n {
        lemma_locations_mono(layouts, m, n - 1);
    }
}

/// Pipeline bindings and attributes for vertex buffers with the given layouts:
/// one binding per layout, and one attribute per location, numbered
/// consecutively over all layouts.
pub fn vertex_layouts_for_pipeline<F: Copy>(layouts: &[VertexLayout<F>]) -> (r: (Vec<VertexInputBinding>, Vec<VertexInputAttribute<F>>))
    requires
        locations_before(layouts@, layouts@.len() as int) <= u32::MAX,
    ensures
        r.0@.len() == layouts@.len(),
        forall|b: int| 0 <= b < layouts@.len() ==> #[trigger] r.0@[b] == (VertexInputBinding {
            stride: layouts@[b].stride,
            rate: layouts@[b].rate,
        }),
        r.1@ == attributes_upto(layouts@, layouts@.len() as int),
{
    let mut next_location: u32 = 0;
    let mut attributes: Vec<VertexInputAttribute<F>> = Vec::new();
    let mut bindings: Vec<VertexInputBinding> = Vec::new();
    let mut b: usize = 0;
    while b < layouts.len()
        invariant
            b <= layouts@.len(),
            locations_before(layouts@, layouts@.len() as int) <= u32::MAX,
            next_location == locations_before(layouts@, b as int),
            attributes@ == attributes_upto(layouts@, b as int),
            bindings@.len() == b,
            forall|k: int| 0 <= k < b ==> #[trigger] bindings@[k] == (VertexInputBinding {
                stride: layouts@[k].stride,
                rate: layouts@[k].rate,
            }),
        decreases layouts@.len() - b,
    {
        let layout = &layouts[b];
        let ghost before = attributes@;
        let ghost base = next_location as int;
        proof {
            lemma_locations_mono(layouts@, b + 1, layouts@.len() as int);
        }
        let mut i: usize = 0;
        while i < layout.locations.len()
            invariant
                i <= layout.locations@.len(),
                *layout == layouts@[b as int],
                b < layouts@.len(),
                base == locations_before(layouts@, b as int),
                base + layout.locations@.len() <= u32::MAX,
                next_location == base + i,
                attributes@ == before + Seq::new(i as nat, |j: int| VertexInputAttribute {
                    location: (base + j) as u32,
                    format: layout.locations@[j].format,
                    offset: layout.locations@[j].offset,
                    binding: b as u32,
                }),
            decreases layout.locations@.len() - i,
        {
            let loc = layout.locations[i];
            next_location = next_location + 1;
            attributes.push(VertexInputAttribute {
                location: next_location - 1,
                format: loc.format,
                offset: loc.offset,
                binding: b as u32,
            });
            i = i + 1;
            proof {
                assert(attributes@ =~= before + Seq::new(i as nat, |j: int| VertexInputAttribute {
                    location: (base + j) as u32,
                    format: layout.locations@[j].format,
                    offset: layout.locations@[j].offset,
                    binding: b as u32,
                }));
            }
        }
        bindings.push(VertexInputBinding { stride: layout.stride, rate: layout.rate });
        b = b + 1;
    }
    (bindings, attributes)
}


proof fn lemma_attributes<F>(layouts: Seq<VertexLayout<F>>, n: int)
    requires
        0 <= n <= layouts.len(),
    ensures
        attributes_upto(layouts, n).len() == locations_before(layouts, n),
        forall|b: int, i: int| 0 <= b < n && 0 <= i < layouts[b].locations@.len() ==>
            #[trigger] attributes_upto(layouts, n)[locations_before(layouts, b) + i] == (VertexInputAttribute {
                location: (locations_before(layouts, b) + i) as u32,
                format: (#[trigger] layouts[b].locations@[i]).format,
                offset: layouts[b].locations@[i].offset,
                binding: b as u32,
            }),
    decreases n,
{
    if n > 0 {
        lemma_attributes(layouts, n - 1);
        let prev = attributes_upto(layouts, n - 1);
        let base = locations_before(layouts, n - 1);
        let locs = layouts[n - 1].locations@;
        let added = Seq::new(locs.len(), |i: int| VertexInputAttribute {
            location: (base + i) as u32,
            format: locs[i].format,
            offset: locs[i].offset,
            binding: (n - 1) as u32,
        });
        assert(attributes_upto(layouts, n) == prev + added);
        assert forall|b: int, i: int| 0 <= b < n && 0 <= i < layouts[b].locations@.len() implies
            #[trigger] attributes_upto(layouts, n)[locations_before(layouts, b) + i] == (VertexInputAttribute {
                location: (locations_before(layouts, b) + i) as u32,
                format: (#[trigger] layouts[b].locations@[i]).format,
                offset: layouts[b].locations@[i].offset,
                binding: b as u32,
            }) by {
            if b < n - 1 {
                lemma_locations_mono(layouts, b + 1, n - 1);
                assert(locations_before(layouts, b + 1) == locations_before(layouts, b) + layouts[b].locations@.len());
                assert(locations_before(layouts, b) + i < prev.len());
                lemma_locations_mono(layouts, 0, b);
                assert((prev + added)[locations_before(layouts, b) + i] == prev[locations_before(layouts, b) + i]);
            } else {
                lemma_locations_mono(layouts, 0, b);
                assert((prev + added)[locations_before(layouts, b) + i] == added[i]);
            }
        }
    }
}

/// The pipeline's attributes: location `i` of layout `b` becomes the
/// attribute at position `p` = (locations of the layouts before `b`) + `i`,
/// with location number `p`, the location's format and offset, and binding
/// `b`; the layouts' locations are numbered from 0 without gap.
pub proof fn law_attributes_numbered<F>(layouts: Seq<VertexLayout<F>>, b: int, i: int)
    requires
        0 <= b < layouts.len(),
        0 <= i < layouts[b].locations@.len(),
    ensures
        locations_before(layouts, 0) == 0,
        locations_before(layouts, b + 1) == locations_before(layouts, b) + layouts[b].locations@.len(),
        attributes_upto(layouts, layouts.len() as int).len() == locations_before(layouts, layouts.len() as int),
        attributes_upto(layouts, layouts.len() as int)[locations_before(layouts, b) + i] == (VertexInputAttribute {
            location: (locations_before(layouts, b) + i) as u32,
            format: layouts[b].locations@[i].format,
            offset: layouts[b].locations@[i].offset,
            binding: b as u32,
        }),
{
    lemma_attributes(layouts, layouts.len() as int);
    assert(layouts[b].locations@[i] == layouts[b].locations@[i]);
}

} // verus!
