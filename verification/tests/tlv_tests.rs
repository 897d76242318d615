use yubikey_oath::constants::Tag;
use yubikey_oath::{tlv_to_lists, tlv_to_map, to_tlv, Tlv, TlvIter, TlvZipIter};

#[test]
fn to_tlv_short_value() {
    assert_eq!(to_tlv(Tag::Name, &[1, 2, 3]), vec![0x71, 3, 1, 2, 3]);
    assert_eq!(to_tlv(Tag::Challenge, &[]), vec![0x74, 0]);
}

#[test]
fn to_tlv_long_value_uses_three_byte_length() {
    let v = vec![7u8; 300];
    let t = to_tlv(Tag::Key, &v);
    assert_eq!(&t[..4], &[0x73, 0xff, 0x01, 0x2c]);
    assert_eq!(t.len(), 304);
    let v = vec![0u8; 255];
    assert_eq!(&to_tlv(Tag::Key, &v)[..4], &[0x73, 0xff, 0x00, 0xff]);
}

#[test]
fn tlv_roundtrip() {
    let mut data = to_tlv(Tag::Name, b"alice");
    data.extend(to_tlv(Tag::Challenge, &[9; 300]));
    data.extend(to_tlv(Tag::Version, &[5, 4, 3]));
    let mut it = TlvIter::from_vec(data);
    assert_eq!(it.next(), Some(Tlv { tag: 0x71, value: b"alice".to_vec() }));
    assert_eq!(it.next(), Some(Tlv { tag: 0x74, value: vec![9; 300] }));
    assert_eq!(it.next(), Some(Tlv { tag: 0x79, value: vec![5, 4, 3] }));
    assert_eq!(it.next(), None);
}

#[test]
fn tlv_iter_stops_on_bad_objects() {
    let data = [0x71u8, 1, 0xaa, 0x00, 1, 0xbb];
    let mut it = TlvIter::new(&data);
    assert_eq!(it.next(), Some(Tlv { tag: 0x71, value: vec![0xaa] }));
    assert_eq!(it.next(), None);
    let truncated = [0x71u8, 5, 1, 2];
    let mut it = TlvIter::new(&truncated);
    assert_eq!(it.next(), None);
    let mut it = TlvIter::new(&[]);
    assert_eq!(it.next(), None);
}

#[test]
fn tlv_iter_skips_what_it_read_before_a_failure() {
    // A tag of 00 is read and refused; reading goes on after it.
    let data = [0x00u8, 0x71, 1, 0x42];
    let mut it = TlvIter::new(&data);
    assert_eq!(it.next(), None);
    assert_eq!(it.next(), Some(Tlv { tag: 0x71, value: vec![0x42] }));
}

#[test]
fn tlv_to_map_keeps_last_value() {
    let mut data = to_tlv(Tag::Name, b"first");
    data.extend(to_tlv(Tag::Version, &[1, 2]));
    data.extend(to_tlv(Tag::Name, b"second"));
    let m = tlv_to_map(data);
    assert_eq!(m.len(), 2);
    assert_eq!(m.get(&0x71), Some(&b"second".to_vec()));
    assert_eq!(m.get(&0x79), Some(&vec![1, 2]));
    assert_eq!(m.get(&0x74), None);
}

#[test]
fn tlv_to_lists_keeps_all_values_in_order() {
    let mut data = to_tlv(Tag::Name, b"a");
    data.extend(to_tlv(Tag::Touch, &[]));
    data.extend(to_tlv(Tag::Name, b"b"));
    let m = tlv_to_lists(data);
    assert_eq!(m.get(&0x71), Some(&vec![b"a".to_vec(), b"b".to_vec()]));
    assert_eq!(m.get(&0x7c), Some(&vec![vec![]]));
    assert_eq!(m.len(), 2);
}

#[test]
fn zip_iter_reads_pairs_and_drops_odd_last() {
    let mut data = to_tlv(Tag::Name, b"id1");
    data.extend(to_tlv(Tag::TruncatedResponse, &[6, 0, 0, 0, 1]));
    data.extend(to_tlv(Tag::Name, b"id2"));
    let mut it = TlvZipIter::from_vec(data.clone());
    let (a, b) = it.next().unwrap();
    assert_eq!(a, Tlv { tag: 0x71, value: b"id1".to_vec() });
    assert_eq!(b.tag, 0x76);
    assert!(it.next().is_none());
    let mut it = TlvZipIter::new(&data);
    assert!(it.next().is_some());
    let mut it = TlvZipIter::from_tlv_iter(TlvIter::new(&data));
    assert!(it.next().is_some());
}

#[test]
fn lists_and_map_agree() {
    let mut data = to_tlv(Tag::Name, b"a");
    data.extend(to_tlv(Tag::Version, &[1]));
    data.extend(to_tlv(Tag::Name, b"b"));
    let lists = tlv_to_lists(data.clone());
    let map = tlv_to_map(data);
    assert_eq!(lists.len(), map.len());
    for (k, v) in &map {
        assert_eq!(lists[k].last(), Some(v));
    }
}
