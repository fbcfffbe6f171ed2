use wilds::bytes::{Endianness, FromBytes, FromBytesIter};

#[test]
fn bytes_from_bytes_orders() {
    assert_eq!(u16::from_bytes(Endianness::Little, &[0x01, 0x02]), 0x0201);
    assert_eq!(u16::from_bytes(Endianness::Big, &[0x01, 0x02]), 0x0102);
    assert_eq!(u32::from_bytes(Endianness::Little, &[1, 2, 3, 4, 5]), 0x0403_0201);
    assert_eq!(u32::from_bytes(Endianness::Big, &[1, 2, 3, 4]), 0x0102_0304);
}

#[test]
fn bytes_iter_reads_with_stride() {
    let data = [1u8, 0, 9, 9, 2, 0, 9, 9, 3, 0];
    let mut it = FromBytesIter::<u16>::from_bytes_iter(Endianness::Little, &data, 4);
    assert_eq!(it.next(), Some(1));
    assert_eq!(it.next(), Some(2));
    assert_eq!(it.next(), Some(3));
    assert_eq!(it.next(), None);
}

#[test]
fn bytes_iter_nth_and_last() {
    let data = [1u8, 0, 2, 0, 3, 0, 4, 0];
    let mut it = FromBytesIter::<u16>::from_bytes_iter(Endianness::Little, &data, 2);
    assert_eq!(it.nth(2), Some(3));
    assert_eq!(it.next(), Some(4));
    let it = FromBytesIter::<u16>::from_bytes_iter(Endianness::Little, &data, 2);
    assert_eq!(it.last(), Some(4));
    let mut it = FromBytesIter::<u16>::from_bytes_iter(Endianness::Little, &data, 2);
    assert_eq!(it.nth(4), None);
    assert_eq!(it.next(), None);
}

#[test]
fn bytes_iter_len_counts() {
    let data = [0u8; 10];
    let it = FromBytesIter::<u32>::from_bytes_iter(Endianness::Big, &data, 3);
    assert_eq!(it.len(), 3);
    assert_eq!(it.size_hint(), (3, Some(3)));
    // Exactly one whole value left is reported as none, though `next` reads it.
    let data = [7u8, 0];
    let mut it = FromBytesIter::<u16>::from_bytes_iter(Endianness::Little, &data, 2);
    assert_eq!(it.len(), 0);
    assert_eq!(it.next(), Some(7));
}

#[test]
fn bytes_nth_matches_repeated_next() {
    let data = [1u8, 0, 9, 2, 0, 9, 3, 0, 9, 4, 0];
    for n in 0..4usize {
        let mut by_nth = FromBytesIter::<u16>::from_bytes_iter(Endianness::Little, &data, 3);
        let mut by_next = FromBytesIter::<u16>::from_bytes_iter(Endianness::Little, &data, 3);
        for _ in 0..n {
            by_next.next();
        }
        assert_eq!(by_nth.nth(n), by_next.next());
        assert_eq!(by_nth.next(), by_next.next());
    }
}

#[test]
fn bytes_last_matches_final_next() {
    let data = [1u8, 0, 9, 2, 0, 9, 3, 0, 9, 4, 0, 7];
    let last = FromBytesIter::<u16>::from_bytes_iter(Endianness::Little, &data, 3).last();
    let mut it = FromBytesIter::<u16>::from_bytes_iter(Endianness::Little, &data, 3);
    let mut final_value = None;
    while let Some(v) = it.next() {
        final_value = Some(v);
    }
    assert_eq!(last, final_value);
    assert_eq!(last, Some(4));
}
