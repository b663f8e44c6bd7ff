use session_control::registry::{Registry, WsClient};

fn registry_of(ids: &[u128]) -> Registry {
    let mut registry = Registry::new();
    for id in ids {
        registry.insert(*id, WsClient::new());
    }
    registry
}

#[test]
fn new_registry_is_empty() {
    let registry = Registry::new();
    assert_eq!(registry.len(), 0);
    assert!(!registry.contains(0));
}

#[test]
fn insert_makes_an_identity_known() {
    let registry = registry_of(&[7, 8]);
    assert_eq!(registry.len(), 2);
    assert!(registry.contains(7));
    assert!(registry.contains(8));
    assert!(!registry.contains(9));
}

#[test]
fn insert_replaces_the_entry_of_the_same_identity() {
    let mut registry = registry_of(&[7]);
    assert!(registry.send(7, "old".to_string()));
    registry.insert(7, WsClient::new());
    assert_eq!(registry.len(), 1);
    assert_eq!(registry.take_waiting(7), Vec::<String>::new());
}

#[test]
fn text_sent_to_one_identity_is_not_seen_by_another() {
    let mut registry = registry_of(&[1, 2, 3]);
    assert!(registry.send(2, "for two".to_string()));
    assert_eq!(registry.take_waiting(1), Vec::<String>::new());
    assert_eq!(registry.take_waiting(3), Vec::<String>::new());
    assert_eq!(registry.take_waiting(2), vec!["for two"]);
}

#[test]
fn texts_wait_in_the_order_in_which_they_were_sent() {
    let mut registry = registry_of(&[1, 2]);
    assert!(registry.send(1, "first".to_string()));
    assert!(registry.send(2, "other".to_string()));
    assert!(registry.send(1, "second".to_string()));
    assert!(registry.send(1, "third".to_string()));
    assert_eq!(registry.take_waiting(1), vec!["first", "second", "third"]);
    assert_eq!(registry.take_waiting(2), vec!["other"]);
}

#[test]
fn taking_leaves_nothing_behind() {
    let mut registry = registry_of(&[1]);
    assert!(registry.send(1, "once".to_string()));
    assert_eq!(registry.take_waiting(1), vec!["once"]);
    assert_eq!(registry.take_waiting(1), Vec::<String>::new());
    assert!(registry.send(1, "twice".to_string()));
    assert_eq!(registry.take_waiting(1), vec!["twice"]);
    assert!(registry.contains(1));
}

#[test]
fn text_for_an_unknown_identity_is_dropped() {
    let mut registry = registry_of(&[1]);
    assert!(!registry.send(2, "lost".to_string()));
    assert_eq!(registry.len(), 1);
    assert!(!registry.contains(2));
    assert_eq!(registry.take_waiting(2), Vec::<String>::new());
    assert_eq!(registry.take_waiting(1), Vec::<String>::new());
}

#[test]
fn text_for_a_closed_sender_is_dropped() {
    let mut registry = registry_of(&[1, 2]);
    assert!(registry.send(1, "early".to_string()));
    assert!(registry.send(2, "kept".to_string()));
    registry.close_sender(1);
    assert!(registry.contains(1));
    assert!(!registry.send(1, "late".to_string()));
    assert_eq!(registry.take_waiting(1), Vec::<String>::new());
    assert_eq!(registry.take_waiting(2), vec!["kept"]);
    registry.close_sender(9);
    assert_eq!(registry.len(), 2);
}

#[test]
fn remove_takes_out_one_identity_and_no_other() {
    let mut registry = registry_of(&[1, 2, 3]);
    assert!(registry.send(1, "a".to_string()));
    assert!(registry.send(2, "b".to_string()));
    assert!(registry.send(3, "c".to_string()));
    let entry = registry.remove(2).unwrap();
    assert_eq!(entry.sender, Some(vec!["b".to_string()]));
    assert_eq!(registry.len(), 2);
    assert!(registry.contains(1));
    assert!(!registry.contains(2));
    assert!(registry.contains(3));
    assert!(!registry.send(2, "gone".to_string()));
    assert_eq!(registry.take_waiting(1), vec!["a"]);
    assert_eq!(registry.take_waiting(3), vec!["c"]);
}

#[test]
fn remove_of_an_unknown_identity_changes_nothing() {
    let mut registry = registry_of(&[1]);
    assert!(registry.remove(2).is_none());
    assert_eq!(registry.len(), 1);
    assert!(registry.contains(1));
}

#[test]
fn entry_alone_takes_texts_until_it_is_closed() {
    let mut client = WsClient::new();
    assert!(client.send("one".to_string()));
    assert!(client.send("two".to_string()));
    assert_eq!(client.take_waiting(), vec!["one", "two"]);
    assert_eq!(client.take_waiting(), Vec::<String>::new());
    let mut closed = WsClient { sender: None };
    assert!(!closed.send("lost".to_string()));
    assert_eq!(closed.take_waiting(), Vec::<String>::new());
    assert_eq!(closed.sender, None);
}
