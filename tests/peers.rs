use dezap::addr::{IpAddress, PeerAddr};
use dezap::peers::{SavedPeer, SavedPeersStore};

fn addr(last: u8, port: u16) -> PeerAddr {
    PeerAddr { ip: IpAddress::V4(u32::from_be_bytes([10, 0, 0, last])), port }
}

fn names(list: &[SavedPeer]) -> Vec<String> {
    list.iter().map(|p| p.name.clone()).collect()
}

#[test]
fn same_address_twice_keeps_one_entry() {
    let mut store = SavedPeersStore::new(Vec::new());
    store.record(addr(1, 5000), "alice");
    let list = store.record(addr(1, 5000), "alicia");
    assert_eq!(list.len(), 1);
    assert_eq!(list[0].name, "alicia");
    assert_eq!(list[0].addr, addr(1, 5000));
    assert_eq!(store.list().len(), 1);
}

#[test]
fn list_stays_sorted_by_name() {
    let mut store = SavedPeersStore::new(Vec::new());
    store.record(addr(1, 1), "zed");
    store.record(addr(2, 1), "amy");
    let list = store.record(addr(3, 1), "mia");
    assert_eq!(names(&list), vec!["amy", "mia", "zed"]);
    let list = store.record(addr(2, 1), "zoe");
    assert_eq!(names(&list), vec!["mia", "zed", "zoe"]);
}

#[test]
fn loaded_list_is_sorted() {
    let loaded = vec![
        SavedPeer { addr: addr(1, 1), name: "b".into() },
        SavedPeer { addr: addr(2, 1), name: "a".into() },
        SavedPeer { addr: addr(3, 1), name: "C".into() },
    ];
    let store = SavedPeersStore::new(loaded);
    assert_eq!(names(&store.list()), vec!["C", "a", "b"]);
}

#[test]
fn loaded_duplicates_keep_the_first_entry() {
    let loaded = vec![
        SavedPeer { addr: addr(1, 1), name: "first".into() },
        SavedPeer { addr: addr(2, 1), name: "other".into() },
        SavedPeer { addr: addr(1, 1), name: "again".into() },
    ];
    let mut store = SavedPeersStore::new(loaded);
    assert_eq!(names(&store.list()), vec!["first", "other"]);
    let list = store.record(addr(1, 1), "zz");
    assert_eq!(names(&list), vec!["other", "zz"]);
}
