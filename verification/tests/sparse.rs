use wilds::sparse::SparseDescriptors;

#[test]
fn sparse_index_assigns_and_remembers() {
    let mut d = SparseDescriptors::new();
    assert_eq!(d.index(100), (0, true));
    assert_eq!(d.index(200), (1, true));
    assert_eq!(d.index(100), (0, false));
}

#[test]
fn sparse_reuses_freed_indices_lowest_first() {
    let mut d = SparseDescriptors::new();
    d.index(1);
    d.index(2);
    d.index(3);
    d.index(4);
    assert_eq!(d._remove(&2), Some(1));
    assert_eq!(d._remove(&1), Some(0));
    assert_eq!(d.index(5), (0, true));
    assert_eq!(d.index(6), (1, true));
    assert_eq!(d.index(7), (4, true));
}

#[test]
fn sparse_removing_last_index_lowers_next() {
    let mut d = SparseDescriptors::new();
    d.index(1);
    d.index(2);
    assert_eq!(d._remove(&2), Some(1));
    assert_eq!(d._remove(&9), None);
    assert_eq!(d.index(3), (1, true));
}

#[test]
fn sparse_shader_texture_index() {
    let mut d = SparseDescriptors::new();
    assert_eq!(wilds::sparse::shader_texture_index(&mut d, None), (0, None));
    assert_eq!(wilds::sparse::shader_texture_index(&mut d, Some(7)), (1, Some(0)));
    assert_eq!(wilds::sparse::shader_texture_index(&mut d, Some(9)), (2, Some(1)));
    assert_eq!(wilds::sparse::shader_texture_index(&mut d, Some(7)), (1, None));
}
