use chat_hub::errors::HubError;
use chat_hub::friendship::FriendshipGraph;
use chat_hub::ids::UserId;

fn uid(n: u64) -> UserId {
    UserId::new(0, n)
}

#[test]
fn accept_leaves_two_accepted_edges() {
    let mut g = FriendshipGraph::new();
    let a = uid(1);
    let b = uid(2);
    assert!(g.request(a, b, 10).is_ok());
    assert!(!g.is_accepted(a, b));
    assert!(!g.is_accepted(b, a));
    assert!(g.accept(b, a, 11).is_ok());
    assert!(g.is_accepted(a, b));
    assert!(g.is_accepted(b, a));
    // a second request between the pair now conflicts
    assert_eq!(g.request(a, b, 12), Err(HubError::Conflict));
    assert_eq!(g.request(b, a, 12), Err(HubError::Conflict));
}

#[test]
fn request_rejects_self_and_duplicates() {
    let mut g = FriendshipGraph::new();
    let a = uid(1);
    let b = uid(2);
    assert_eq!(g.request(a, a, 1), Err(HubError::Validation));
    assert!(g.request(a, b, 1).is_ok());
    assert_eq!(g.request(a, b, 2), Err(HubError::Conflict));
    assert_eq!(g.request(b, a, 2), Err(HubError::Conflict));
}

#[test]
fn accept_and_reject_need_the_pending_edge() {
    let mut g = FriendshipGraph::new();
    let a = uid(1);
    let b = uid(2);
    let c = uid(3);
    assert_eq!(g.accept(b, a, 1), Err(HubError::NotFound));
    assert_eq!(g.reject(b, a), Err(HubError::NotFound));
    assert!(g.request(a, b, 1).is_ok());
    // only the target can accept: the requester holds no incoming edge
    assert_eq!(g.accept(a, b, 2), Err(HubError::NotFound));
    assert_eq!(g.accept(c, a, 2), Err(HubError::NotFound));
    assert!(g.accept(b, a, 2).is_ok());
    // once accepted, the pending edge is gone
    assert_eq!(g.accept(b, a, 3), Err(HubError::NotFound));
}

#[test]
fn reject_deletes_the_request() {
    let mut g = FriendshipGraph::new();
    let a = uid(1);
    let b = uid(2);
    assert!(g.request(a, b, 1).is_ok());
    assert!(g.reject(b, a).is_ok());
    assert!(!g.is_accepted(a, b));
    // the pair is free again
    assert!(g.request(b, a, 2).is_ok());
}

#[test]
fn remove_is_idempotent_and_total() {
    let mut g = FriendshipGraph::new();
    let a = uid(1);
    let b = uid(2);
    g.remove(a, b);
    assert!(g.request(a, b, 1).is_ok());
    assert!(g.accept(b, a, 2).is_ok());
    g.remove(a, b);
    assert!(!g.is_accepted(a, b));
    assert!(!g.is_accepted(b, a));
    g.remove(a, b);
    assert!(!g.is_accepted(a, b));
}

#[test]
fn listings_follow_the_edges() {
    let mut g = FriendshipGraph::new();
    let a = uid(1);
    let b = uid(2);
    let c = uid(3);
    let d = uid(4);
    g.request(a, b, 1).unwrap();
    g.accept(b, a, 2).unwrap();
    g.request(c, a, 3).unwrap();
    g.request(d, a, 4).unwrap();

    let friends = g.list_accepted(a);
    assert_eq!(friends, vec![uid(2)]);

    let mut incoming = g.list_incoming_pending(a);
    incoming.sort_by_key(|u| u.lo);
    assert_eq!(incoming, vec![uid(3), uid(4)]);

    assert!(g.list_accepted(c).is_empty());
    assert_eq!(g.list_incoming_pending(b), Vec::new());
}

#[test]
fn error_labels_are_stable() {
    assert_eq!(HubError::Validation.label(), "validation_error");
    assert_eq!(HubError::Forbidden.label(), "forbidden_error");
    assert_eq!(HubError::Conflict.label(), "conflict_error");
    assert_eq!(HubError::NotFound.label(), "not_found_error");
    assert_eq!(HubError::Storage.label(), "storage_error");
}
