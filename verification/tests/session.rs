use raknet_core::client::Client;
use raknet_core::endpoint::Endpoint;
use raknet_core::session::SessionTable;

#[test]
fn create_get_and_remove() {
    let mut table = SessionTable::new();
    let a = Endpoint::v4(1, 2, 3, 4, 100);
    let b = Endpoint::v4(1, 2, 3, 4, 101);
    assert_eq!(table.len(), 0);
    assert!(!table.contains(a));
    assert!(table.get(a).is_none());

    let created = table.create(a, 1400, 7);
    assert_eq!(created.addr(), a);
    assert_eq!(created.mtu_size(), 1400);
    assert_eq!(created.last_update(), 7);
    assert_eq!(table.len(), 1);
    assert!(table.contains(a));
    assert!(!table.contains(b));
    assert_eq!(table.get(a).unwrap().mtu_size(), 1400);

    table.create(b, 500, 8);
    assert_eq!(table.len(), 2);

    table.remove(a);
    assert!(!table.contains(a));
    assert!(table.contains(b));
    assert_eq!(table.len(), 1);

    // removing an absent endpoint changes nothing
    table.remove(a);
    assert_eq!(table.len(), 1);
}

#[test]
fn create_replaces_an_existing_session() {
    let mut table = SessionTable::new();
    let a = Endpoint::v4(9, 8, 7, 6, 2000);
    table.create(a, 1000, 1);
    table.create(a, 1200, 2);
    assert_eq!(table.len(), 1);
    let c = table.get(a).copied().unwrap();
    assert_eq!(c.mtu_size(), 1200);
    assert_eq!(c.last_update(), 2);
}

#[test]
fn insert_stores_an_updated_record() {
    let mut table = SessionTable::new();
    let a = Endpoint::v4(9, 8, 7, 6, 2000);
    let rel = Endpoint::v4(172, 16, 0, 1, 4);
    let mut c = table.create(a, 1000, 1);
    c.set_relationship(rel);
    c.set_guid(42);
    c.touch(9);
    table.insert(a, c);
    let stored: Client = table.get(a).copied().unwrap();
    assert_eq!(stored.relationship(), Some(rel));
    assert!(stored.has_relationship());
    assert_eq!(stored.guid(), Some(42));
    assert!(stored.has_guid());
    assert_eq!(stored.last_update(), 9);
}
