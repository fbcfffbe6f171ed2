use crate::gltf::PrimitiveTopology;
use crate::mesh::{Binding, IndexType, Indices, Mesh, MeshBuilder};
use crate::sbt::OutOfMemory;
use crate::vertex::VertexLayout;
use vstd::prelude::*;

verus! {

/// The vertex in column `x` and row `z` of a grid `width` vertices wide.
pub open spec fn grid_vertex(width: int, x: int, z: int) -> int {
    x + z * width
}

/// The two triangles of the cell between columns `x - 1`, `x` and rows
/// `z - 1`, `z`: (x-1, z-1), (x, z-1), (x-1, z), then (x, z-1), (x, z), (x-1, z).
pub open spec fn cell_indices(width: int, x: int, z: int) -> Seq<int> {
    let p00 = grid_vertex(width, x - 1, z - 1);
    let p01 = grid_vertex(width, x - 1, z);
    let p10 = grid_vertex(width, x, z - 1);
    let p11 = grid_vertex(width, x, z);
    seq![p00, p10, p01, p10, p11, p01]
}

/// The cells of row `z`, in columns 1 through `n`, in order.
pub open spec fn row_indices(width: int, z: int, n: int) -> Seq<int>
    decreases n,
{
    if n <= 0 {
        Seq::empty()
    } else {
        row_indices(width, z, n - 1) + cell_indices(width, n, z)
    }
}

/// The cells of rows 1 through `n` of a grid `width` vertices wide, row by row.
pub open spec fn grid_indices(width: int, n: int) -> Seq<int>
    decreases n,
{
    if n <= 0 {
        Seq::empty()
    } else {
        grid_indices(width, n - 1) + row_indices(width, n, width - 1)
    }
}

/// Number of cells of a `width` × `depth` grid of vertices.
pub open spec fn cell_count(width: int, depth: int) -> int {
    if width <= 0 || depth <= 0 {
        0
    } else {
        (width - 1) * (depth - 1)
    }
}

proof fn lemma_row_len(width: int, z: int, n: int)
    ensures
        row_indices(width, z, n).len() == if n <= 0 { 0 } else { 6 * n },
    decreases n,
{
    if n > 0 {
        lemma_row_len(width, z, n - 1);
    }
}

proof fn lemma_grid_len(width: int, n: int)
    requires
        width >= 1,
    ensures
        grid_indices(width, n).len() == if n <= 0 { 0 } else { 6 * ((width - 1) * n) },
    decreases n,
{
    if n > 0 {
        lemma_grid_len(width, n - 1);
        lemma_row_len(width, n, width - 1);
        assert(6 * ((width - 1) * (n - 1)) + 6 * (width - 1) == 6 * ((width - 1) * n)) by (nonlinear_arith);
    }
}

/// The number of indices of a grid: six for each cell.
proof fn lemma_index_count(width: int, depth: int)
    requires
        width >= 0,
    ensures
        grid_indices(width, depth - 1).len() == 6 * cell_count(width, depth),
{
    if width >= 1 {
        lemma_grid_len(width, depth - 1);
        if depth >= 2 {
            assert(grid_indices(width, depth - 1).len() == 6 * ((width - 1) * (depth - 1)));
        } else if depth == 1 {
            assert((width - 1) * (depth - 1) == 0) by (nonlinear_arith)
                requires
                    depth == 1;
        }
    } else {
        assert(grid_indices(width, depth - 1).len() == 0) by {
            lemma_grid_empty_row(depth - 1);
        }
    }
}

proof fn lemma_grid_empty_row(n: int)
    ensures
        grid_indices(0, n).len() == 0,
    decreases n,
{
    if n > 0 {
        lemma_grid_empty_row(n - 1);
    }
}

/// A vertex of a cell inside the grid lies inside the grid.
proof fn lemma_vertex_in_grid(width: int, depth: int, x: int, z: int)
    requires
        0 <= x < width,
        0 <= z < depth,
    ensures
        0 <= grid_vertex(width, x, z) < width * depth,
{
    assert(0 <= x + z * width < width * depth) by (nonlinear_arith)
        requires
            0 <= x < width,
            0 <= z < depth;
}

/// The vertex and index counts a terrain mesh is built with.
#[derive(Clone, Copy, Debug, PartialEq, Eq, Structural)]
pub struct TerrainCounts {
    pub vertex_count: u32,
    pub index_count: u32,
}

/// The counts of a terrain of `width` × `depth` vertices: one vertex per
/// grid point and six indices per cell. A vertex count over `u32` is an
/// out-of-memory error.
pub fn terrain_counts(width: u32, depth: u32) -> (r: Result<TerrainCounts, OutOfMemory>)
    requires
        width * depth <= u32::MAX ==> 6 * cell_count(width as int, depth as int) <= u32::MAX,
    ensures
        match r {
            Ok(c) => {
                &&& width * depth <= u32::MAX
                &&& c.vertex_count == width * depth
                &&& c.index_count == 6 * cell_count(width as int, depth as int)
                &&& width >= 1 && depth >= 1 ==> c.index_count == 6 * ((width - 1) * (depth - 1))
                &&& width == 0 || depth == 0 ==> c.index_count == 0
            },
            Err(_) => width * depth > u32::MAX,
        },
{
    let vertex_count: u32 = match width.checked_mul(depth) {
        Some(n) => n,
        None => return Err(OutOfMemory),
    };
    let cells: u32 = if width == 0 || depth == 0 {
        0
    } else {
        assert((width - 1) * (depth - 1) <= width * depth) by (nonlinear_arith)
            requires
                width >= 1,
                depth >= 1;
        (width - 1) * (depth - 1)
    };
    Ok(TerrainCounts { vertex_count, index_count: cells * 6 })
}

/// The indices of the triangles of a terrain of `width` × `depth` vertices:
/// two per cell, cells in row order. Every index names a vertex of the grid.
pub fn terrain_indices(width: u32, depth: u32) -> (r: Vec<u32>)
    requires
        width * depth <= u32::MAX,
    ensures
        r@.map_values(|i: u32| i as int) == grid_indices(width as int, depth - 1),
        r@.len() == 6 * cell_count(width as int, depth as int),
        forall|k: int| 0 <= k < r@.len() ==> #[trigger] r@[k] < width * depth,
{
    let mut v: Vec<u32> = Vec::new();
    let mut z: u32 = 1;
    while z < depth
        invariant
            1 <= z,
            z <= depth || z == 1,
            width * depth <= u32::MAX,
            v@.map_values(|i: u32| i as int) == grid_indices(width as int, z - 1),
            forall|k: int| 0 <= k < v@.len() ==> #[trigger] v@[k] < width * depth,
        decreases depth - z,
    {
        let mut x: u32 = 1;
        while x < width
            invariant
                1 <= z < depth,
                1 <= x,
                x <= width || x == 1,
                width * depth <= u32::MAX,
                v@.map_values(|i: u32| i as int) == grid_indices(width as int, z - 1) + row_indices(width as int, z as int, x - 1),
                forall|k: int| 0 <= k < v@.len() ==> #[trigger] v@[k] < width * depth,
            decreases width - x,
        {
            proof {
                lemma_vertex_in_grid(width as int, depth as int, x - 1, z - 1);
                lemma_vertex_in_grid(width as int, depth as int, x - 1, z as int);
                lemma_vertex_in_grid(width as int, depth as int, x as int, z - 1);
                lemma_vertex_in_grid(width as int, depth as int, x as int, z as int);
            }
            let p00: u32 = (x - 1) + (z - 1) * width;
            let p01: u32 = (x - 1) + z * width;
            let p10: u32 = x + (z - 1) * width;
            let p11: u32 = x + z * width;
            let ghost before = v@;
            v.push(p00);
            v.push(p10);
            v.push(p01);
            v.push(p10);
            v.push(p11);
            v.push(p01);
            proof {
                let cell = cell_indices(width as int, x as int, z as int);
                assert(v@ =~= before + seq![p00, p10, p01, p10, p11, p01]);
                assert(v@.map_values(|i: u32| i as int) =~= before.map_values(|i: u32| i as int) + cell);
                assert(row_indices(width as int, z as int, x as int) == row_indices(width as int, z as int, x - 1) + cell);
                assert(grid_indices(width as int, z - 1) + row_indices(width as int, z as int, x as int)
                    =~= grid_indices(width as int, z - 1) + row_indices(width as int, z as int, x - 1) + cell);
                assert forall|k: int| 0 <= k < v@.len() implies #[trigger] v@[k] < width * depth by {
                    if k < before.len() {
                        assert(v@[k] == before[k]);
                    }
                }
            }
            x = x + 1;
        }
        proof {
            if width == 0 {
                assert(row_indices(width as int, z as int, x - 1) =~= Seq::<int>::empty());
            }
            assert(grid_indices(width as int, z as int)
                == grid_indices(width as int, z - 1) + row_indices(width as int, z as int, width - 1));
            if width >= 1 {
                assert(x == width);
            }
            assert(grid_indices(width as int, z - 1) + row_indices(width as int, z as int, x - 1)
                =~= grid_indices(width as int, z as int));
        }
        z = z + 1;
    }
    proof {
        if depth >= 1 {
            assert(z == depth);
        } else {
            assert(grid_indices(width as int, z - 1) =~= grid_indices(width as int, depth - 1));
        }
        lemma_index_count(width as int, depth as int);
        assert(v@.map_values(|i: u32| i as int).len() == v@.len());
    }
    v
}


/// Builds the terrain mesh over uploaded data: a triangle list with one
/// binding that reads the vertices from offset 0 with `layout`, and 32-bit
/// indices at `indices_offset`, drawn with the terrain's counts. The vertex
/// data and the indices may share one buffer, handed in twice.
pub fn terrain_mesh<B, F>(vertex_buffer: B, index_buffer: B, layout: VertexLayout<F>, indices_offset: u64, counts: TerrainCounts) -> (r: Mesh<B, F>)
    ensures
        r.topology_spec() == PrimitiveTopology::TriangleList,
        r.bindings_spec() == seq![Binding { buffer: vertex_buffer, offset: 0u64, layout }],
        r.indices_spec() == Some(Indices { buffer: index_buffer, offset: indices_offset, index_type: IndexType::U32 }),
        r.count_spec() == counts.index_count,
        r.vertex_count_spec() == counts.vertex_count,
{
    let builder: MeshBuilder<B, F> = MeshBuilder::with_topology(PrimitiveTopology::TriangleList);
    let builder = builder.with_binding(vertex_buffer, 0, layout);
    let builder = builder.with_indices(index_buffer, indices_offset, IndexType::U32);
    let r = builder.build(counts.index_count, counts.vertex_count);
    assert(r.bindings_spec() =~= seq![Binding { buffer: vertex_buffer, offset: 0u64, layout }]);
    r
}


proof fn lemma_row_index(width: int, z: int, n: int, x: int, c: int)
    requires
        1 <= x <= n,
        0 <= c < 6,
    ensures
        row_indices(width, z, n)[6 * (x - 1) + c] == cell_indices(width, x, z)[c],
    decreases n,
{
    lemma_row_len(width, z, n - 1);
    if x < n {
        lemma_row_index(width, z, n - 1, x, c);
    }
}

proof fn lemma_grid_index(width: int, n: int, z: int, x: int, c: int)
    requires
        width >= 2,
        1 <= z <= n,
        1 <= x < width,
        0 <= c < 6,
    ensures
        grid_indices(width, n)[6 * ((z - 1) * (width - 1) + (x - 1)) + c] == cell_indices(width, x, z)[c],
    decreases n,
{
    lemma_grid_len(width, n - 1);
    lemma_row_len(width, n, width - 1);
    let a = grid_indices(width, n - 1);
    let r = row_indices(width, n, width - 1);
    assert(grid_indices(width, n) == a + r);
    let i = 6 * ((z - 1) * (width - 1) + (x - 1)) + c;
    if z == n {
        assert(a.len() == 6 * ((z - 1) * (width - 1))) by {
            if n == 1 {
                assert((z - 1) * (width - 1) == 0) by (nonlinear_arith)
                    requires z == 1;
            } else {
                assert((z - 1) * (width - 1) == (width - 1) * (n - 1)) by (nonlinear_arith)
                    requires z == n;
            }
        }
        lemma_row_index(width, n, width - 1, x, c);
        assert(i - a.len() == 6 * (x - 1) + c);
        assert((a + r)[i] == r[i - a.len()]);
    } else {
        assert(6 * ((z - 1) * (width - 1) + (x - 1)) + c < 6 * ((width - 1) * (n - 1))) by (nonlinear_arith)
            requires 1 <= z < n, 1 <= x < width, 0 <= c < 6;
        lemma_grid_index(width, n - 1, z, x, c);
        assert((a + r)[i] == a[i]);
    }
}

/// Every cell of the grid, in every row, is drawn as the two triangles
/// (x-1, z-1), (x, z-1), (x-1, z) and (x, z-1), (x, z), (x-1, z), each vertex
/// numbered `column + row * width`, at six indices per cell in row order; no
/// triangle repeats a vertex.
pub proof fn law_terrain_cells(width: int, depth: int, x: int, z: int)
    requires
        1 <= x < width,
        1 <= z < depth,
    ensures
        ({
            let g = grid_indices(width, depth - 1);
            let b = 6 * ((z - 1) * (width - 1) + (x - 1));
            &&& g.len() == 6 * ((width - 1) * (depth - 1))
            &&& 0 <= b && b + 6 <= g.len()
            &&& g[b] == (x - 1) + (z - 1) * width
            &&& g[b + 1] == x + (z - 1) * width
            &&& g[b + 2] == (x - 1) + z * width
            &&& g[b + 3] == x + (z - 1) * width
            &&& g[b + 4] == x + z * width
            &&& g[b + 5] == (x - 1) + z * width
            &&& g[b] != g[b + 1] && g[b + 1] != g[b + 2] && g[b] != g[b + 2]
            &&& g[b + 3] != g[b + 4] && g[b + 4] != g[b + 5] && g[b + 3] != g[b + 5]
        }),
{
    let b = 6 * ((z - 1) * (width - 1) + (x - 1));
    lemma_grid_len(width, depth - 1);
    assert(0 <= b && b + 6 <= 6 * ((width - 1) * (depth - 1))) by (nonlinear_arith)
        requires 1 <= x < width, 1 <= z < depth, b == 6 * ((z - 1) * (width - 1) + (x - 1));
    lemma_grid_index(width, depth - 1, z, x, 0);
    lemma_grid_index(width, depth - 1, z, x, 1);
    lemma_grid_index(width, depth - 1, z, x, 2);
    lemma_grid_index(width, depth - 1, z, x, 3);
    lemma_grid_index(width, depth - 1, z, x, 4);
    lemma_grid_index(width, depth - 1, z, x, 5);
    assert((z - 1) * width + width == z * width) by (nonlinear_arith);
}

} // verus!
