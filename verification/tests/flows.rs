use netlab::flows::{endpoint_key, host_pair, FlowKey, FlowTable};
use netlab::net::IpAddress;

fn v4(a: u8, b: u8, c: u8, d: u8) -> IpAddress {
    IpAddress::V4(u32::from_be_bytes([a, b, c, d]))
}

#[test]
fn host_pair_ignores_direction() {
    let a = v4(10, 0, 0, 1);
    let b = v4(192, 168, 1, 1);
    let c = IpAddress::V6(1);
    assert_eq!(host_pair(a, b), host_pair(b, a));
    assert_eq!(host_pair(a, b), FlowKey::Hosts { low: a, high: b });
    assert_eq!(host_pair(c, a), FlowKey::Hosts { low: a, high: c });
    assert_eq!(host_pair(a, a), FlowKey::Hosts { low: a, high: a });
}

#[test]
fn add_and_count() {
    let mut t = FlowTable::new();
    let k1 = endpoint_key(v4(1, 1, 1, 1), 80, v4(2, 2, 2, 2), 5000);
    let k2 = endpoint_key(v4(2, 2, 2, 2), 5000, v4(1, 1, 1, 1), 80);
    t.add(k1, 100);
    t.add(k1, 50);
    t.add(k2, 0);
    assert_eq!(t.count(k1), 150);
    assert_eq!(t.count(k2), 0);
    assert_eq!(t.len(), 2);
    assert_eq!(t.count(endpoint_key(v4(9, 9, 9, 9), 1, v4(9, 9, 9, 9), 2)), 0);
    t.clear();
    assert_eq!(t.len(), 0);
    assert_eq!(t.count(k1), 0);
}

#[test]
fn top_is_largest_first() {
    let mut t = FlowTable::new();
    let keys: Vec<FlowKey> = (1..=7u8).map(|i| host_pair(v4(10, 0, 0, i), v4(10, 0, 1, i))).collect();
    let counts = [5u64, 9, 1, 9, 3, 7, 2];
    for (k, c) in keys.iter().zip(counts.iter()) {
        t.add(*k, *c);
    }
    let top = t.top(5);
    let got: Vec<u64> = top.iter().map(|e| e.1).collect();
    assert_eq!(got, vec![9, 9, 7, 5, 3]);
    for e in &top {
        let i = keys.iter().position(|k| *k == e.0).unwrap();
        assert_eq!(counts[i], e.1);
    }
    assert_ne!(top[0].0, top[1].0);
}

#[test]
fn top_with_few_flows() {
    let mut t = FlowTable::new();
    assert!(t.top(5).is_empty());
    let k = host_pair(v4(1, 2, 3, 4), v4(4, 3, 2, 1));
    t.add(k, 1);
    assert_eq!(t.top(5), vec![(k, 1)]);
    assert!(t.top(0).is_empty());
}
