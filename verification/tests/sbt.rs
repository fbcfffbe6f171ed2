use wilds::sbt::{copy_group_handlers, shader_binding_table_layout};

#[test]
fn sbt_copy_group_handlers_in_order() {
    let handlers = [10u8, 11, 20, 21, 30, 31];
    let mut write = [0u8; 6];
    let mut offset = 2usize;
    let r = copy_group_handlers(&handlers, &mut write, &[2, 0], &mut offset, 2);
    assert_eq!(r, Some(2..6));
    assert_eq!(offset, 6);
    assert_eq!(write, [0, 0, 30, 31, 10, 11]);
}

#[test]
fn sbt_copy_group_handlers_overflow_stops() {
    let handlers = [1u8, 2];
    let mut write = [0u8; 4];
    let mut offset = 0usize;
    let r = copy_group_handlers(&handlers, &mut write, &[u32::MAX], &mut offset, 1u64 << 40);
    assert_eq!(r, None);
    assert_eq!(offset, 0);
    assert_eq!(write, [0u8; 4]);
    let mut offset = 0usize;
    let r = copy_group_handlers(&handlers, &mut write, &[], &mut offset, u64::MAX);
    if usize::BITS < 64 {
        assert_eq!(r, None);
    } else {
        assert_eq!(r, Some(0..0));
    }
}

#[test]
fn sbt_layout_places_kinds_in_order() {
    let handlers = [0u8, 0, 1, 1, 2, 2, 3, 3];
    let layout = shader_binding_table_layout(&handlers, 2, 64, Some(3), &[1], &[0, 2], &[]).unwrap();
    assert_eq!(layout.bytes, vec![3, 3, 1, 1, 0, 0, 2, 2]);
    assert_eq!(layout.size, 8);
    assert_eq!(layout.align, 63);
    assert_eq!(layout.raygen, Some(0..2));
    assert_eq!(layout.miss, Some(2..4));
    assert_eq!(layout.hit, Some(4..8));
    assert_eq!(layout.callable, Some(8..8));
}
