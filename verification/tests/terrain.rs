use wilds::terrain::{terrain_counts, terrain_indices, TerrainCounts};

#[test]
fn terrain_indices_of_three_by_two_grid() {
    assert_eq!(terrain_indices(3, 2), vec![0, 1, 3, 1, 4, 3, 1, 2, 4, 2, 5, 4]);
    assert_eq!(
        terrain_counts(3, 2).unwrap(),
        TerrainCounts { vertex_count: 6, index_count: 12 }
    );
}

#[test]
fn terrain_indices_stay_inside_the_grid() {
    let (width, depth) = (7u32, 5u32);
    let indices = terrain_indices(width, depth);
    let counts = terrain_counts(width, depth).unwrap();
    assert_eq!(indices.len(), counts.index_count as usize);
    assert_eq!(counts.index_count, 6 * 6 * 4);
    assert!(indices.iter().all(|&i| i < width * depth));
}

#[test]
fn terrain_degenerate_grids_have_no_cells() {
    assert!(terrain_indices(0, 4).is_empty());
    assert!(terrain_indices(4, 1).is_empty());
    assert_eq!(terrain_counts(0, 4).unwrap(), TerrainCounts { vertex_count: 0, index_count: 0 });
    assert_eq!(terrain_counts(1, 9).unwrap(), TerrainCounts { vertex_count: 9, index_count: 0 });
}

#[test]
fn terrain_counts_too_many_vertices() {
    assert!(terrain_counts(65536, 65536).is_err());
}
