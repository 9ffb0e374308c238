use std::collections::HashSet;
use wakkave::hub::ChatServer;

#[test]
fn connect_gives_distinct_ids() {
    let mut hub: ChatServer<u32> = ChatServer::new();
    let mut ids = HashSet::new();
    for h in 0..50u32 {
        let id = hub.connect(h);
        assert_eq!(id.len(), 36);
        assert!(ids.insert(id));
    }
    assert_eq!(hub.len(), 50);
}

#[test]
fn disconnect_known_and_unknown_ids() {
    let mut hub: ChatServer<&str> = ChatServer::new();
    let a = hub.connect("a");
    let b = hub.connect("b");
    let c = hub.connect("c");
    hub.disconnect(&"no such session".to_string());
    assert_eq!(hub.len(), 3);
    hub.disconnect(&a);
    assert_eq!(hub.len(), 2);
    assert_eq!(hub.position(&a), None);
    // the last session took the place of the removed one
    assert_eq!(hub.position(&c), Some(0));
    assert_eq!(*hub.handle(0), "c");
    assert_eq!(*hub.handle(1), "b");
    hub.disconnect(&a);
    assert_eq!(hub.len(), 2);
    hub.disconnect(&b);
    hub.disconnect(&c);
    assert_eq!(hub.len(), 0);
}

#[test]
fn broadcast_skips_the_excluded_session() {
    let mut hub: ChatServer<char> = ChatServer::new();
    let a = hub.connect('a');
    let b = hub.connect('b');
    let _c = hub.connect('c');
    let to: Vec<char> = hub.recipients(&Some(b.clone())).iter().map(|&i| *hub.handle(i)).collect();
    assert_eq!(to, vec!['a', 'c']);
    let all: Vec<char> = hub.recipients(&None).iter().map(|&i| *hub.handle(i)).collect();
    assert_eq!(all, vec!['a', 'b', 'c']);
    hub.disconnect(&a);
    let after: Vec<char> = hub.recipients(&None).iter().map(|&i| *hub.handle(i)).collect();
    assert_eq!(after, vec!['c', 'b']);
    let none = hub.recipients(&Some("unknown".to_string()));
    assert_eq!(none.len(), 2);
}
