use fuel_p2p::bytes::{bytes32_eq, bytes_eq, clone_bytes, clone_text, text_eq};
use fuel_p2p::ids::{Multiaddr, PeerId};
use fuel_p2p::table::{Table, TableKey};

#[test]
fn insert_get_remove() {
    let mut table: Table<u64, &str> = Table::new();
    assert_eq!(table.len(), 0);
    assert_eq!(table.insert(3, "c"), None);
    assert_eq!(table.insert(1, "a"), None);
    assert_eq!(table.insert(3, "C"), Some("c"));
    assert_eq!(table.len(), 2);
    assert_eq!(table.get(&3), Some(&"C"));
    assert_eq!(table.get(&2), None);
    assert!(table.contains_key(&1));
    assert_eq!(table.find(&1), Some(1));
    assert_eq!(table.key_at(0), &3);
    assert_eq!(table.value_at(1), &"a");
    assert_eq!(table.remove(&3), Some("C"));
    assert_eq!(table.remove(&3), None);
    assert_eq!(table.find(&1), Some(0));
    assert_eq!(table.replace_at(0, "A"), "a");
    assert_eq!(table.remove_at(0), (1, "A"));
    assert_eq!(table.len(), 0);
}

#[test]
fn keys_are_compared_by_their_bytes() {
    let mut table: Table<PeerId, u8> = Table::new();
    let mut a = [0u8; 32];
    a[31] = 1;
    let mut b = [0u8; 32];
    b[0] = 1;
    table.insert(PeerId(a), 1);
    table.insert(PeerId(b), 2);
    assert_eq!(table.get(&PeerId(a)), Some(&1));
    assert_eq!(table.get(&PeerId(b)), Some(&2));
    assert_eq!(table.get(&PeerId([0; 32])), None);
    assert!(PeerId(a).key_eq(&PeerId(a)));
    assert!(!PeerId(a).key_eq(&PeerId(b)));
    assert!(7u64.key_eq(&7));
}

#[test]
fn byte_helpers() {
    assert!(bytes32_eq(&[3; 32], &[3; 32]));
    let mut other = [3u8; 32];
    other[17] = 4;
    assert!(!bytes32_eq(&[3; 32], &other));
    assert!(bytes_eq(&vec![1, 2], &vec![1, 2]));
    assert!(!bytes_eq(&vec![1, 2], &vec![1, 2, 3]));
    assert!(!bytes_eq(&vec![1, 2], &vec![1, 3]));
    assert!(bytes_eq(&vec![], &vec![]));
    assert_eq!(clone_bytes(&vec![5, 6, 7]), vec![5, 6, 7]);
    assert!(text_eq(&"a".to_string(), &"a".to_string()));
    assert!(!text_eq(&"a".to_string(), &"b".to_string()));
    assert_eq!(clone_text(&"abc".to_string()), "abc");
}

#[test]
fn addresses_are_compared_by_location_and_peer() {
    let a = Multiaddr::new("/ip4/1.1.1.1/tcp/1".to_string(), Some(PeerId([1; 32])));
    assert!(a.same(&a.duplicate()));
    assert!(!a.same(&Multiaddr::new("/ip4/1.1.1.1/tcp/1".to_string(), None)));
    assert!(!a.same(&Multiaddr::new("/ip4/1.1.1.1/tcp/1".to_string(), Some(PeerId([2; 32])))));
    assert!(!a.same(&Multiaddr::new("/ip4/1.1.1.1/tcp/2".to_string(), Some(PeerId([1; 32])))));
    let none = Multiaddr::new("x".to_string(), None);
    assert!(none.same(&none.duplicate()));
}

#[test]
fn a_peer_id_is_the_digest_of_the_public_key() {
    let id = PeerId::derive(&b"abc".to_vec());
    assert_eq!(id.0[..4], [0xba, 0x78, 0x16, 0xbf]);
    assert_eq!(id.0[28..], [0xf2, 0x00, 0x15, 0xad]);
    assert!(id.same(&PeerId::derive(&b"abc".to_vec())));
    assert!(!id.same(&PeerId::derive(&b"abd".to_vec())));
}
