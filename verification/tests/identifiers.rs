use forest_vm::identifiers::{cid_of_block, Address, Cid, CidSet};

fn cid(byte: u8) -> Cid {
    Cid { bytes: vec![byte, 7] }
}

#[test]
fn set_holds_what_was_inserted() {
    let mut set = CidSet::new();
    assert_eq!(set.len(), 0);
    assert!(!set.contains(&cid(1)));
    assert!(set.insert(cid(1)));
    assert!(set.insert(cid(2)));
    assert!(set.contains(&cid(1)));
    assert!(set.contains(&cid(2)));
    assert!(!set.contains(&cid(3)));
    assert_eq!(set.len(), 2);
}

#[test]
fn set_takes_an_identifier_once() {
    let mut set = CidSet::new();
    assert!(set.insert(cid(1)));
    assert!(!set.insert(cid(1)));
    assert_eq!(set.len(), 1);
}

#[test]
fn set_lists_each_identifier_once() {
    let mut set = CidSet::new();
    assert!(set.items().is_empty());
    set.insert(cid(1));
    set.insert(cid(2));
    set.insert(cid(1));
    let mut items: Vec<Vec<u8>> = set.items().iter().map(|cid| cid.bytes.clone()).collect();
    items.sort();
    assert_eq!(items, vec![vec![1, 7], vec![2, 7]]);
}

#[test]
fn block_is_identified_by_its_digest() {
    let mut expected = vec![0x01, 0x71, 0xa0, 0xe4, 0x02, 0x20];
    expected.extend_from_slice(&[
        0x0e, 0x57, 0x51, 0xc0, 0x26, 0xe5, 0x43, 0xb2, 0xe8, 0xab, 0x2e, 0xb0, 0x60, 0x99, 0xda,
        0xa1, 0xd1, 0xe5, 0xdf, 0x47, 0x77, 0x8f, 0x77, 0x87, 0xfa, 0xab, 0x45, 0xcd, 0xf1, 0x2f,
        0xe3, 0xa8,
    ]);
    assert_eq!(cid_of_block(&Vec::new()).bytes, expected);
}

#[test]
fn identifiers_differ_by_any_byte() {
    let mut set = CidSet::new();
    set.insert(Cid { bytes: vec![1, 2, 3] });
    assert!(!set.contains(&Cid { bytes: vec![1, 2] }));
    assert!(!set.contains(&Cid { bytes: vec![1, 2, 4] }));
    assert!(!set.contains(&Cid { bytes: vec![1, 2, 3, 0] }));
    assert!(set.contains(&Cid { bytes: vec![1, 2, 3] }));
}

#[test]
fn clones_keep_the_bytes() {
    assert_eq!(cid(9).clone().bytes, vec![9, 7]);
    assert_eq!(Address { bytes: vec![0, 42] }.clone().bytes, vec![0, 42]);
}
