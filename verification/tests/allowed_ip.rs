use caetun::allowed_ip::{AllowedIps, IpAddress};

fn v4(octets: [u8; 4]) -> IpAddress {
    IpAddress::V4(u32::from_be_bytes(octets))
}

fn v6(segments: [u16; 8]) -> IpAddress {
    let mut value: u128 = 0;
    for segment in segments {
        value = (value << 16) | u128::from(segment);
    }
    IpAddress::V6(value)
}

fn id(c: char) -> u32 {
    u32::from(c)
}

fn build_allowed_ips() -> AllowedIps {
    let mut map: AllowedIps = Default::default();
    map.insert(v4([127, 0, 0, 1]), 32, id('1'));
    map.insert(v4([45, 25, 15, 1]), 30, id('6'));
    map.insert(v4([127, 0, 15, 1]), 16, id('2'));
    map.insert(v4([127, 1, 15, 1]), 24, id('3'));
    map.insert(v4([255, 1, 15, 1]), 24, id('4'));
    map.insert(v4([60, 25, 15, 1]), 32, id('5'));
    map.insert(v6([553, 0, 0, 1, 0, 0, 0, 0]), 128, id('7'));
    map
}

#[test]
fn test_allowed_ips_insert_find() {
    let map = build_allowed_ips();
    assert_eq!(map.find(v4([127, 0, 0, 1])), Some(&id('1')));
    assert_eq!(map.find(v4([127, 0, 255, 255])), Some(&id('2')));
    assert_eq!(map.find(v4([127, 1, 255, 255])), None);
    assert_eq!(map.find(v4([127, 0, 255, 255])), Some(&id('2')));
    assert_eq!(map.find(v4([127, 1, 15, 255])), Some(&id('3')));
    assert_eq!(map.find(v4([127, 0, 255, 255])), Some(&id('2')));
    assert_eq!(map.find(v4([127, 1, 15, 255])), Some(&id('3')));
    assert_eq!(map.find(v4([255, 1, 15, 2])), Some(&id('4')));
    assert_eq!(map.find(v4([60, 25, 15, 1])), Some(&id('5')));
    assert_eq!(map.find(v4([20, 0, 0, 100])), None);
    assert_eq!(
        map.find(v6([553, 0, 0, 1, 0, 0, 0, 0])),
        Some(&id('7'))
    );
    assert_eq!(map.find(v6([553, 0, 0, 1, 0, 0, 0, 1])), None);
    assert_eq!(map.find(v4([45, 25, 15, 1])), Some(&id('6')));
}

#[test]
fn test_allowed_ips_remove() {
    let mut map = build_allowed_ips();
    map.remove(|c: &u32| *c == id('5') || *c == id('1') || *c == id('7'));

    let items = map.iter();
    let mut map_iter = items.into_iter();
    assert_eq!(map_iter.next(), Some((&id('6'), v4([45, 25, 15, 0]), 30)));
    assert_eq!(map_iter.next(), Some((&id('2'), v4([127, 0, 0, 0]), 16)));
    assert_eq!(map_iter.next(), Some((&id('3'), v4([127, 1, 15, 0]), 24)));
    assert_eq!(map_iter.next(), Some((&id('4'), v4([255, 1, 15, 0]), 24)));
    assert_eq!(map_iter.next(), None);
}

#[test]
fn insert_returns_the_value_it_replaces() {
    let mut map = AllowedIps::new();
    assert_eq!(map.insert(v4([10, 1, 2, 3]), 8, 1), None);
    assert_eq!(map.insert(v4([10, 200, 0, 9]), 8, 2), Some(1));
    assert_eq!(map.find(v4([10, 0, 0, 1])), Some(&2));
    assert_eq!(map.iter(), vec![(&2, v4([10, 0, 0, 0]), 8)]);
}

#[test]
fn longest_prefix_wins_whatever_the_order_of_insertion() {
    let mut map = AllowedIps::new();
    map.insert(v4([10, 1, 0, 0]), 16, 16);
    map.insert(v4([0, 0, 0, 0]), 0, 0);
    map.insert(v4([10, 1, 2, 0]), 24, 24);
    map.insert(v4([10, 0, 0, 0]), 8, 8);
    assert_eq!(map.find(v4([10, 1, 2, 3])), Some(&24));
    assert_eq!(map.find(v4([10, 1, 3, 3])), Some(&16));
    assert_eq!(map.find(v4([10, 2, 3, 3])), Some(&8));
    assert_eq!(map.find(v4([11, 2, 3, 3])), Some(&0));
    assert_eq!(map.find(v6([0, 0, 0, 0, 0, 0, 0, 1])), None);
}

#[test]
fn clear_empties_the_table() {
    let mut map = build_allowed_ips();
    map.clear();
    assert!(map.iter().is_empty());
    assert_eq!(map.find(v4([127, 0, 0, 1])), None);
}

#[test]
fn extend_inserts_in_turn() {
    let mut map = AllowedIps::new();
    map.extend(vec![
        (v4([192, 168, 1, 77]), 24, 1),
        (v4([192, 168, 2, 77]), 24, 2),
        (v4([192, 168, 1, 1]), 24, 3),
    ]);
    assert_eq!(map.find(v4([192, 168, 1, 5])), Some(&3));
    assert_eq!(map.find(v4([192, 168, 2, 5])), Some(&2));
    assert_eq!(map.iter().len(), 2);
}

#[test]
fn prefix_bounds_of_both_families() {
    assert_eq!(v4([1, 2, 3, 4]).max_prefix(), 32);
    assert_eq!(v6([1, 2, 3, 4, 5, 6, 7, 8]).max_prefix(), 128);
    let mut map = AllowedIps::new();
    map.insert(v6([0x2001, 0xdb8, 0xdead, 0xbeef, 1, 2, 3, 4]), 64, 9);
    assert_eq!(
        map.iter(),
        vec![(&9, v6([0x2001, 0xdb8, 0xdead, 0xbeef, 0, 0, 0, 0]), 64)]
    );
    assert_eq!(
        map.find(v6([0x2001, 0xdb8, 0xdead, 0xbeef, 0xffff, 0, 0, 1])),
        Some(&9)
    );
}
