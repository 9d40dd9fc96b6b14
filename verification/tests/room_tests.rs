use sfu_server::error::SfuError;
use sfu_server::sfu::room::{room_id_string, Peer, PeerRole, RoomManager, MAX_ROOM_ID_ATTEMPTS};
use std::time::SystemTime;

fn s(t: &str) -> String {
    t.to_string()
}

fn registry_with_room(number: u32) -> (RoomManager, String) {
    let mut rooms = RoomManager::new();
    let id = rooms.create_room_with(s("p1"), Some(s("Dr")), number, SystemTime::now()).unwrap();
    (rooms, id)
}

#[test]
fn room_ids_are_six_digits() {
    assert_eq!(room_id_string(100000), "100000");
    assert_eq!(room_id_string(999999), "999999");
    assert_eq!(room_id_string(120304), "120304");
    assert_eq!(room_id_string(500009), "500009");
}

#[test]
fn drawn_room_ids_are_in_range() {
    let mut rooms = RoomManager::new();
    for i in 0..200 {
        let id = rooms.create_room(format!("proctor{}", i), None).unwrap();
        assert_eq!(id.len(), 6);
        let n: u32 = id.parse().unwrap();
        assert!((100000..=999999).contains(&n));
        assert!(rooms.room_exists(&id));
        assert_eq!(rooms.get_room_proctor(&id), Some(format!("proctor{}", i)));
    }
    assert_eq!(MAX_ROOM_ID_ATTEMPTS, 16);
}

#[test]
fn drawn_room_ids_differ() {
    let mut rooms = RoomManager::new();
    let mut seen = std::collections::HashSet::new();
    for i in 0..50 {
        let id = rooms.create_room(format!("proctor{}", i), None).unwrap();
        assert!(seen.insert(id));
    }
    assert!(seen.len() > 1);
}

#[test]
fn a_room_has_its_proctor() {
    let now = SystemTime::now();
    let mut rooms = RoomManager::new();
    let id = rooms.create_room_with(s("p1"), Some(s("Dr")), 123456, now).unwrap();
    assert_eq!(id, "123456");
    assert!(rooms.room_exists("123456"));
    assert!(!rooms.room_exists("123457"));
    assert_eq!(rooms.get_room_proctor("123456"), Some(s("p1")));
    assert_eq!(rooms.get_room_proctor("654321"), None);
    let proctor = rooms.get_peer("p1").unwrap();
    assert_eq!(
        proctor,
        Peer { id: s("p1"), role: PeerRole::Proctor, room_id: s("123456"), name: Some(s("Dr")) }
    );
    let room = rooms.get_room("123456").unwrap();
    assert_eq!(room.id, "123456");
    assert_eq!(room.proctor_id, "p1");
    assert!(room.students.is_empty());
    assert_eq!(room.created_at, now);
    assert!(rooms.get_room("000000").is_none());
}

#[test]
fn a_peer_id_opens_one_room_only() {
    let (mut rooms, _) = registry_with_room(123456);
    let again = rooms.create_room_with(s("p1"), None, 222222, SystemTime::now());
    assert_eq!(again, Err(SfuError::PeerAlreadyExists(s("p1"))));
    assert!(!rooms.room_exists("222222"));
    assert_eq!(rooms.create_room(s("p1"), None), Err(SfuError::PeerAlreadyExists(s("p1"))));
}

#[test]
fn a_room_number_is_given_once() {
    let (mut rooms, _) = registry_with_room(123456);
    let taken = rooms.create_room_with(s("p2"), None, 123456, SystemTime::now());
    assert_eq!(taken, Err(SfuError::RoomAlreadyExists(s("123456"))));
    assert!(rooms.get_peer("p2").is_none());
    assert_eq!(rooms.get_room_proctor("123456"), Some(s("p1")));
}

#[test]
fn students_join_in_order() {
    let (mut rooms, id) = registry_with_room(123456);
    assert_eq!(rooms.join_room(id.clone(), s("s1"), Some(s("Ann"))), Ok(()));
    assert_eq!(rooms.join_room(id.clone(), s("s2"), None), Ok(()));
    assert_eq!(rooms.get_room(&id).unwrap().students, vec![s("s1"), s("s2")]);
    let peers = rooms.get_room_peers(&id);
    assert_eq!(
        peers,
        vec![
            Peer { id: s("p1"), role: PeerRole::Proctor, room_id: id.clone(), name: Some(s("Dr")) },
            Peer { id: s("s1"), role: PeerRole::Student, room_id: id.clone(), name: Some(s("Ann")) },
            Peer { id: s("s2"), role: PeerRole::Student, room_id: id.clone(), name: None },
        ]
    );
    assert!(rooms.get_room_peers("999999").is_empty());
}

#[test]
fn joining_twice_changes_nothing() {
    let (mut rooms, id) = registry_with_room(123456);
    assert_eq!(rooms.join_room(id.clone(), s("s1"), Some(s("Ann"))), Ok(()));
    assert_eq!(rooms.join_room(id.clone(), s("s1"), Some(s("Other"))), Ok(()));
    assert_eq!(rooms.get_room(&id).unwrap().students, vec![s("s1")]);
    assert_eq!(rooms.get_peer("s1").unwrap().name, Some(s("Ann")));
    assert_eq!(rooms.get_room_peers(&id).len(), 2);
}

#[test]
fn joining_needs_a_room() {
    let (mut rooms, _) = registry_with_room(123456);
    assert_eq!(
        rooms.join_room(s("999999"), s("s1"), None),
        Err(SfuError::RoomNotFound(s("999999")))
    );
    assert!(rooms.get_peer("s1").is_none());
}

#[test]
fn a_peer_is_in_one_room_only() {
    let mut rooms = RoomManager::new();
    let a = rooms.create_room_with(s("p1"), None, 111111, SystemTime::now()).unwrap();
    let b = rooms.create_room_with(s("p2"), None, 222222, SystemTime::now()).unwrap();
    assert_eq!(rooms.join_room(a.clone(), s("s1"), None), Ok(()));
    assert_eq!(rooms.join_room(b.clone(), s("s1"), None), Err(SfuError::PeerAlreadyExists(s("s1"))));
    assert_eq!(rooms.join_room(a.clone(), s("p1"), None), Err(SfuError::PeerAlreadyExists(s("p1"))));
    assert_eq!(rooms.join_room(b.clone(), s("p1"), None), Err(SfuError::PeerAlreadyExists(s("p1"))));
    assert_eq!(rooms.get_peer("s1").unwrap().room_id, a);
    assert!(rooms.get_room(&b).unwrap().students.is_empty());
}

#[test]
fn forwarding_follows_the_roles() {
    let mut rooms = RoomManager::new();
    let a = rooms.create_room_with(s("p1"), None, 111111, SystemTime::now()).unwrap();
    let b = rooms.create_room_with(s("p2"), None, 222222, SystemTime::now()).unwrap();
    rooms.join_room(a.clone(), s("s1"), None).unwrap();
    rooms.join_room(a.clone(), s("s2"), None).unwrap();
    rooms.join_room(b.clone(), s("s3"), None).unwrap();
    assert!(rooms.should_forward_track("p1", "s1"));
    assert!(rooms.should_forward_track("s1", "p1"));
    assert!(rooms.should_forward_track("p1", "s2"));
    assert!(rooms.should_forward_track("s2", "p1"));
    assert!(!rooms.should_forward_track("s1", "s2"));
    assert!(!rooms.should_forward_track("s2", "s1"));
    assert!(!rooms.should_forward_track("p1", "p1"));
    assert!(!rooms.should_forward_track("s1", "s1"));
    assert!(!rooms.should_forward_track("p1", "s3"));
    assert!(!rooms.should_forward_track("s3", "p1"));
    assert!(!rooms.should_forward_track("p1", "p2"));
    assert!(!rooms.should_forward_track("s1", "s3"));
    assert!(!rooms.should_forward_track("p1", "nobody"));
    assert!(!rooms.should_forward_track("nobody", "p1"));
    assert!(!rooms.should_forward_track("nobody", "nobody"));
    assert!(rooms.should_forward_track("p2", "s3"));
}

#[test]
fn every_peer_has_its_room_and_every_room_its_proctor() {
    let mut rooms = RoomManager::new();
    let a = rooms.create_room_with(s("p1"), None, 111111, SystemTime::now()).unwrap();
    let b = rooms.create_room_with(s("p2"), None, 222222, SystemTime::now()).unwrap();
    rooms.join_room(a.clone(), s("s1"), None).unwrap();
    rooms.join_room(b.clone(), s("s2"), None).unwrap();
    rooms.remove_peer("s1");
    for id in ["p1", "p2", "s2"] {
        let peer = rooms.get_peer(id).unwrap();
        assert!(rooms.room_exists(&peer.room_id));
    }
    for room_id in [&a, &b] {
        let proctor = rooms.get_peer(&rooms.get_room_proctor(room_id).unwrap()).unwrap();
        assert_eq!(proctor.role, PeerRole::Proctor);
        assert_eq!(&proctor.room_id, room_id);
    }
}

#[test]
fn a_student_leaves_alone() {
    let (mut rooms, id) = registry_with_room(123456);
    rooms.join_room(id.clone(), s("s1"), Some(s("Ann"))).unwrap();
    rooms.join_room(id.clone(), s("s2"), None).unwrap();
    let left = rooms.remove_peer("s1");
    assert_eq!(left, Some((id.clone(), PeerRole::Student, Some(s("Ann")))));
    assert!(rooms.get_peer("s1").is_none());
    assert!(rooms.room_exists(&id));
    assert_eq!(rooms.get_room(&id).unwrap().students, vec![s("s2")]);
    assert!(rooms.get_peer("p1").is_some());
    assert!(rooms.get_peer("s2").is_some());
}

#[test]
fn a_proctor_takes_the_room_along() {
    let mut rooms = RoomManager::new();
    let a = rooms.create_room_with(s("p1"), Some(s("Dr")), 111111, SystemTime::now()).unwrap();
    let b = rooms.create_room_with(s("p2"), None, 222222, SystemTime::now()).unwrap();
    rooms.join_room(a.clone(), s("s1"), None).unwrap();
    rooms.join_room(a.clone(), s("s2"), None).unwrap();
    rooms.join_room(b.clone(), s("s3"), None).unwrap();
    let left = rooms.remove_peer("p1");
    assert_eq!(left, Some((a.clone(), PeerRole::Proctor, Some(s("Dr")))));
    assert!(!rooms.room_exists(&a));
    assert!(rooms.get_peer("p1").is_none());
    assert!(rooms.get_peer("s1").is_none());
    assert!(rooms.get_peer("s2").is_none());
    assert!(rooms.get_room_peers(&a).is_empty());
    assert!(rooms.room_exists(&b));
    assert!(rooms.get_peer("p2").is_some());
    assert!(rooms.get_peer("s3").is_some());
    assert!(!rooms.should_forward_track("s1", "p1"));
}

#[test]
fn removing_twice_finds_nothing() {
    let (mut rooms, id) = registry_with_room(123456);
    rooms.join_room(id.clone(), s("s1"), None).unwrap();
    assert!(rooms.remove_peer("s1").is_some());
    assert_eq!(rooms.remove_peer("s1"), None);
    assert!(rooms.remove_peer("p1").is_some());
    assert_eq!(rooms.remove_peer("p1"), None);
    assert_eq!(rooms.remove_peer("nobody"), None);
}

#[test]
fn a_left_student_may_come_back() {
    let (mut rooms, id) = registry_with_room(123456);
    rooms.join_room(id.clone(), s("s1"), None).unwrap();
    rooms.remove_peer("s1");
    assert_eq!(rooms.join_room(id.clone(), s("s1"), Some(s("Ann"))), Ok(()));
    assert_eq!(rooms.get_room(&id).unwrap().students, vec![s("s1")]);
}

#[test]
fn a_drawn_room_is_made_now() {
    let before = SystemTime::now();
    let mut rooms = RoomManager::new();
    let id = rooms.create_room(s("p1"), None).unwrap();
    let after = SystemTime::now();
    let made = rooms.get_room(&id).unwrap().created_at;
    assert!(before <= made && made <= after);
    let copy = rooms.get_room(&id).unwrap();
    assert_eq!(copy.created_at, made);
}
