use wilds::bitset::BitSet;

#[test]
fn bitset_add_takes_lowest() {
    let mut set = BitSet::new();
    assert_eq!(set.add(), Some(0));
    assert_eq!(set.add(), Some(1));
    assert_eq!(set.add(), Some(2));
}

#[test]
fn bitset_exhausts_after_128() {
    let mut set = BitSet::new();
    for i in 0..128 {
        assert_eq!(set.add(), Some(i));
    }
    assert_eq!(set.add(), None);
}

#[test]
fn bitset_unset_fills_all_but_index() {
    let mut set = BitSet::new();
    for _ in 0..5 {
        set.add();
    }
    set.unset(3);
    assert_eq!(set.add(), Some(0));
    assert_eq!(set.add(), Some(1));
    assert_eq!(set.add(), Some(2));
    assert_eq!(set.add(), Some(4));
}
