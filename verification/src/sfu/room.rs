use crate::error::SfuError;
use crate::seq_lemmas::{
    keys_distinct, lemma_filter_keys_distinct, lemma_filter_members, lemma_filter_start,
    lemma_filter_step, lemma_push_members,
};
use crate::text::{
    clone_opt_string, clone_strings, digit_char, digit_str, is_digit, opt_view, str_eq,
    text_views,
};
use rand::Rng;
use std::time::SystemTime;
use vstd::prelude::*;
use vstd::string::*;

verus! {

/// `std::time::SystemTime`, the clock reading that a room keeps as its creation time. It is
/// carried as it is: nothing is claimed of what a reading holds.
#[verifier::external_type_specification]
#[verifier::external_body]
pub struct ExSystemTime(std::time::SystemTime);

/// `std::time::SystemTime::now` reads the system clock; nothing is claimed of the reading.
pub assume_specification[ std::time::SystemTime::now ]() -> (now: std::time::SystemTime)
;

/// `SystemTime` is `Copy`: its `clone` hands back the same reading.
pub assume_specification[ <std::time::SystemTime as Clone>::clone ](
    t: &std::time::SystemTime,
) -> (r: std::time::SystemTime)
    ensures
        r == *t,
;

/// What a participant may do in a room.
#[derive(Debug, Clone, Copy, PartialEq, Eq, Structural)]
pub enum PeerRole {
    Proctor,
    Student,
}

/// A participant as the contracts see it.
pub struct PeerView {
    pub id: Seq<char>,
    pub role: PeerRole,
    pub room_id: Seq<char>,
    pub name: Option<Seq<char>>,
}

/// A room as the contracts see it.
pub struct RoomView {
    pub id: Seq<char>,
    pub proctor_id: Seq<char>,
    pub students: Seq<Seq<char>>,
    pub created_at: std::time::SystemTime,
}

/// The text of a six-digit room number.
pub open spec fn room_id_text(n: nat) -> Seq<char> {
    seq![
        digit_char((n / 100000) % 10),
        digit_char((n / 10000) % 10),
        digit_char((n / 1000) % 10),
        digit_char((n / 100) % 10),
        digit_char((n / 10) % 10),
        digit_char(n % 10),
    ]
}

/// Six decimal digits, the first of them not zero.
pub open spec fn is_room_id(s: Seq<char>) -> bool {
    &&& s.len() == 6
    &&& s[0] != '0'
    &&& forall|k: int| 0 <= k < 6 ==> is_digit(#[trigger] s[k])
}

/// Every number from 100000 to 999999 is written as a room id.
pub proof fn lemma_room_id_text_valid(n: nat)
    requires
        100000 <= n <= 999999,
    ensures
        is_room_id(room_id_text(n)),
{
    let s = room_id_text(n);
    assert(1 <= (n / 100000) % 10 <= 9);
    assert forall|k: int| 0 <= k < 6 implies is_digit(#[trigger] s[k]) by {
        assert(forall|d: nat| is_digit(#[trigger] digit_char(d)));
    }
}

/// The id of a peer, by which peers are told apart.
pub open spec fn peer_id_key() -> spec_fn(PeerView) -> Seq<char> {
    |p: PeerView| p.id
}

/// The id of a room, by which rooms are told apart.
pub open spec fn room_id_key() -> spec_fn(RoomView) -> Seq<char> {
    |r: RoomView| r.id
}

/// A text itself, by which the texts of a list are told apart.
pub open spec fn text_key() -> spec_fn(Seq<char>) -> Seq<char> {
    |t: Seq<char>| t
}

/// Holds of the peers whose id is not `id`.
pub open spec fn peer_not(id: Seq<char>) -> spec_fn(PeerView) -> bool {
    |p: PeerView| p.id != id
}

/// Holds of the peers of other rooms than `room_id`.
pub open spec fn peer_outside(room_id: Seq<char>) -> spec_fn(PeerView) -> bool {
    |p: PeerView| p.room_id != room_id
}

/// Holds of the peers of the room `room_id`.
pub open spec fn peer_inside(room_id: Seq<char>) -> spec_fn(PeerView) -> bool {
    |p: PeerView| p.room_id == room_id
}

/// Holds of the rooms whose id is not `room_id`.
pub open spec fn room_not(room_id: Seq<char>) -> spec_fn(RoomView) -> bool {
    |r: RoomView| r.id != room_id
}

/// Holds of the texts other than `t`.
pub open spec fn text_not(t: Seq<char>) -> spec_fn(Seq<char>) -> bool {
    |s: Seq<char>| s != t
}

/// A room without the student `student_id`.
pub open spec fn drop_student(student_id: Seq<char>) -> spec_fn(RoomView) -> RoomView {
    |r: RoomView| RoomView { students: r.students.filter(text_not(student_id)), ..r }
}

/// The room `room_id` gets the student `student_id` at the end of its list; other rooms stay.
pub open spec fn add_student(room_id: Seq<char>, student_id: Seq<char>) -> spec_fn(
    RoomView,
) -> RoomView {
    |r: RoomView|
        if r.id == room_id {
            RoomView { students: r.students.push(student_id), ..r }
        } else {
            r
        }
}

/// The registry as the contracts see it: rooms and peers, each in the order of arrival.
pub struct RoomManagerView {
    pub rooms: Seq<RoomView>,
    pub peers: Seq<PeerView>,
}

impl RoomManagerView {
    /// Whether there is a peer with this id.
    pub open spec fn has_peer(self, id: Seq<char>) -> bool {
        exists|p: PeerView| #[trigger] self.peers.contains(p) && p.id == id
    }

    /// The peer with this id, where there is one.
    pub open spec fn peer(self, id: Seq<char>) -> PeerView {
        choose|p: PeerView| #[trigger] self.peers.contains(p) && p.id == id
    }

    /// Whether there is a room with this id.
    pub open spec fn has_room(self, id: Seq<char>) -> bool {
        exists|r: RoomView| #[trigger] self.rooms.contains(r) && r.id == id
    }

    /// The room with this id, where there is one.
    pub open spec fn room(self, id: Seq<char>) -> RoomView {
        choose|r: RoomView| #[trigger] self.rooms.contains(r) && r.id == id
    }

    /// No two peers share an id, and no two rooms.
    pub open spec fn ids_distinct(self) -> bool {
        &&& keys_distinct(self.peers, peer_id_key())
        &&& keys_distinct(self.rooms, room_id_key())
    }

    /// Every room id is six decimal digits.
    pub open spec fn room_ids_valid(self) -> bool {
        forall|r: RoomView| #[trigger] self.rooms.contains(r) ==> is_room_id(r.id)
    }

    /// Every peer is in a room that exists.
    pub open spec fn peers_have_rooms(self) -> bool {
        forall|p: PeerView| #[trigger] self.peers.contains(p) ==> self.has_room(p.room_id)
    }

    /// The proctor of every room is a peer of that room, with the proctor's role.
    pub open spec fn rooms_have_proctors(self) -> bool {
        forall|r: RoomView| #[trigger]
            self.rooms.contains(r) ==> {
                &&& self.has_peer(r.proctor_id)
                &&& self.peer(r.proctor_id).role == PeerRole::Proctor
                &&& self.peer(r.proctor_id).room_id == r.id
            }
    }

    /// A peer of a room is its proctor or on its list of students, by its role.
    pub open spec fn roles_agree(self) -> bool {
        forall|p: PeerView, r: RoomView|
            #[trigger] self.peers.contains(p) && #[trigger] self.rooms.contains(r) && p.room_id
                == r.id ==> {
                &&& p.role == PeerRole::Proctor ==> p.id == r.proctor_id
                &&& p.role == PeerRole::Student ==> r.students.contains(p.id)
            }
    }

    /// Every student on a room's list is a peer of that room, with the student's role.
    pub open spec fn students_are_peers(self) -> bool {
        forall|r: RoomView, s: Seq<char>|
            #[trigger] self.rooms.contains(r) && #[trigger] r.students.contains(s) ==> {
                &&& self.has_peer(s)
                &&& self.peer(s).role == PeerRole::Student
                &&& self.peer(s).room_id == r.id
            }
    }

    /// No room lists a student twice.
    pub open spec fn students_distinct(self) -> bool {
        forall|r: RoomView| #[trigger]
            self.rooms.contains(r) ==> keys_distinct(r.students, text_key())
    }

    /// The registry's invariant.
    pub open spec fn wf(self) -> bool {
        &&& self.ids_distinct()
        &&& self.room_ids_valid()
        &&& self.peers_have_rooms()
        &&& self.rooms_have_proctors()
        &&& self.roles_agree()
        &&& self.students_are_peers()
        &&& self.students_distinct()
    }

    /// The peers of one room, in the order of arrival.
    pub open spec fn room_peers(self, room_id: Seq<char>) -> Seq<PeerView> {
        self.peers.filter(peer_inside(room_id))
    }

    /// Whether media of `from` goes to `to`: never to oneself, never to or from a stranger,
    /// never across rooms, and within a room only where one of the two is the proctor.
    pub open spec fn should_forward(self, from: Seq<char>, to: Seq<char>) -> bool {
        &&& from != to
        &&& self.has_peer(from)
        &&& self.has_peer(to)
        &&& self.peer(from).room_id == self.peer(to).room_id
        &&& (self.peer(from).role == PeerRole::Proctor || self.peer(to).role
            == PeerRole::Proctor)
    }

    /// The registry with a new room and its proctor.
    pub open spec fn with_room(
        self,
        room_id: Seq<char>,
        proctor_id: Seq<char>,
        name: Option<Seq<char>>,
        created_at: std::time::SystemTime,
    ) -> RoomManagerView {
        RoomManagerView {
            rooms: self.rooms.push(
                RoomView { id: room_id, proctor_id, students: Seq::empty(), created_at },
            ),
            peers: self.peers.push(
                PeerView { id: proctor_id, role: PeerRole::Proctor, room_id, name },
            ),
        }
    }

    /// The registry with a new student in the room `room_id`.
    pub open spec fn with_student(
        self,
        room_id: Seq<char>,
        student_id: Seq<char>,
        name: Option<Seq<char>>,
    ) -> RoomManagerView {
        RoomManagerView {
            rooms: self.rooms.map_values(add_student(room_id, student_id)),
            peers: self.peers.push(
                PeerView { id: student_id, role: PeerRole::Student, room_id, name },
            ),
        }
    }

    /// The registry after the peer `id` has left. A proctor takes the room and all its peers
    /// along; a student leaves the peers and the room's list.
    pub open spec fn without_peer(self, id: Seq<char>) -> RoomManagerView {
        let p = self.peer(id);
        if p.role == PeerRole::Proctor {
            RoomManagerView {
                rooms: self.rooms.filter(room_not(p.room_id)),
                peers: self.peers.filter(peer_outside(p.room_id)),
            }
        } else {
            RoomManagerView {
                rooms: self.rooms.map_values(drop_student(id)),
                peers: self.peers.filter(peer_not(id)),
            }
        }
    }

    /// Whether a student `student_id` may join the room `room_id`: the room exists, and the id
    /// is new or already that of a student of this room.
    pub open spec fn join_allowed(self, room_id: Seq<char>, student_id: Seq<char>) -> bool {
        &&& self.has_room(room_id)
        &&& self.has_peer(student_id) ==> {
            &&& self.peer(student_id).role == PeerRole::Student
            &&& self.peer(student_id).room_id == room_id
        }
    }

    /// The registry after a request to join.
    pub open spec fn after_join(
        self,
        room_id: Seq<char>,
        student_id: Seq<char>,
        name: Option<Seq<char>>,
    ) -> RoomManagerView {
        if self.has_room(room_id) && !self.has_peer(student_id) {
            self.with_student(room_id, student_id, name)
        } else {
            self
        }
    }

    /// The registry after a request to remove a peer.
    pub open spec fn after_remove(self, id: Seq<char>) -> RoomManagerView {
        if self.has_peer(id) {
            self.without_peer(id)
        } else {
            self
        }
    }
}

/// With distinct ids, a peer that is in the registry is the peer that its id names.
pub proof fn lemma_peer_unique(v: RoomManagerView, p: PeerView)
    requires
        keys_distinct(v.peers, peer_id_key()),
        v.peers.contains(p),
    ensures
        v.has_peer(p.id),
        v.peer(p.id) == p,
{
    let q = v.peer(p.id);
    assert(v.peers.contains(q) && q.id == p.id);
    let i = choose|i: int| 0 <= i < v.peers.len() && v.peers[i] == p;
    let j = choose|j: int| 0 <= j < v.peers.len() && v.peers[j] == q;
    if i < j {
        assert(peer_id_key()(v.peers[i]) != peer_id_key()(v.peers[j]));
    }
    if j < i {
        assert(peer_id_key()(v.peers[j]) != peer_id_key()(v.peers[i]));
    }
}

/// With distinct ids, a room that is in the registry is the room that its id names.
pub proof fn lemma_room_unique(v: RoomManagerView, r: RoomView)
    requires
        keys_distinct(v.rooms, room_id_key()),
        v.rooms.contains(r),
    ensures
        v.has_room(r.id),
        v.room(r.id) == r,
{
    let q = v.room(r.id);
    assert(v.rooms.contains(q) && q.id == r.id);
    let i = choose|i: int| 0 <= i < v.rooms.len() && v.rooms[i] == r;
    let j = choose|j: int| 0 <= j < v.rooms.len() && v.rooms[j] == q;
    if i < j {
        assert(room_id_key()(v.rooms[i]) != room_id_key()(v.rooms[j]));
    }
    if j < i {
        assert(room_id_key()(v.rooms[j]) != room_id_key()(v.rooms[i]));
    }
}

/// A new room with a new proctor keeps ids distinct.
proof fn lemma_with_room_distinct(
    v: RoomManagerView,
    room_id: Seq<char>,
    proctor_id: Seq<char>,
    name: Option<Seq<char>>,
    created_at: std::time::SystemTime,
)
    requires
        v.ids_distinct(),
        !v.has_peer(proctor_id),
        !v.has_room(room_id),
    ensures
        v.with_room(room_id, proctor_id, name, created_at).ids_distinct(),
{
    let w = v.with_room(room_id, proctor_id, name, created_at);
    assert forall|i: int, j: int| 0 <= i < j < w.peers.len() implies peer_id_key()(
        #[trigger] w.peers[i],
    ) != peer_id_key()(#[trigger] w.peers[j]) by {
        if j == v.peers.len() {
            assert(v.peers.contains(v.peers[i]));
        } else {
            assert(w.peers[i] == v.peers[i] && w.peers[j] == v.peers[j]);
        }
    }
    assert forall|i: int, j: int| 0 <= i < j < w.rooms.len() implies room_id_key()(
        #[trigger] w.rooms[i],
    ) != room_id_key()(#[trigger] w.rooms[j]) by {
        if j == v.rooms.len() {
            assert(v.rooms.contains(v.rooms[i]));
        } else {
            assert(w.rooms[i] == v.rooms[i] && w.rooms[j] == v.rooms[j]);
        }
    }
}

/// A peer that stays in the registry while ids stay distinct is still named by its id.
proof fn lemma_peer_kept(v: RoomManagerView, w: RoomManagerView, id: Seq<char>)
    requires
        v.has_peer(id),
        w.peers.contains(v.peer(id)),
        keys_distinct(w.peers, peer_id_key()),
    ensures
        w.has_peer(id),
        w.peer(id) == v.peer(id),
{
    lemma_peer_unique(w, v.peer(id));
}

/// A room that stays in the registry is still found by its id.
proof fn lemma_room_kept(v: RoomManagerView, w: RoomManagerView, id: Seq<char>)
    requires
        v.has_room(id),
        w.rooms.contains(v.room(id)),
    ensures
        w.has_room(id),
{
}

proof fn lemma_with_room_peers_have_rooms(
    v: RoomManagerView,
    room_id: Seq<char>,
    proctor_id: Seq<char>,
    name: Option<Seq<char>>,
    created_at: std::time::SystemTime,
)
    requires
        v.peers_have_rooms(),
    ensures
        v.with_room(room_id, proctor_id, name, created_at).peers_have_rooms(),
{
    let w = v.with_room(room_id, proctor_id, name, created_at);
    let nr = RoomView { id: room_id, proctor_id, students: Seq::empty(), created_at };
    let np = PeerView { id: proctor_id, role: PeerRole::Proctor, room_id, name };
    lemma_push_members(v.rooms, nr);
    lemma_push_members(v.peers, np);
    assert forall|p: PeerView| #[trigger] w.peers.contains(p) implies w.has_room(p.room_id) by {
        if p == np {
            assert(w.rooms.contains(nr));
        } else {
            assert(v.peers.contains(p));
            lemma_room_kept(v, w, p.room_id);
        }
    }
}

proof fn lemma_with_room_proctors(
    v: RoomManagerView,
    room_id: Seq<char>,
    proctor_id: Seq<char>,
    name: Option<Seq<char>>,
    created_at: std::time::SystemTime,
)
    requires
        v.rooms_have_proctors(),
        v.with_room(room_id, proctor_id, name, created_at).ids_distinct(),
    ensures
        v.with_room(room_id, proctor_id, name, created_at).rooms_have_proctors(),
{
    let w = v.with_room(room_id, proctor_id, name, created_at);
    let nr = RoomView { id: room_id, proctor_id, students: Seq::empty(), created_at };
    let np = PeerView { id: proctor_id, role: PeerRole::Proctor, room_id, name };
    lemma_push_members(v.rooms, nr);
    lemma_push_members(v.peers, np);
    assert forall|r: RoomView| #[trigger] w.rooms.contains(r) implies {
        &&& w.has_peer(r.proctor_id)
        &&& w.peer(r.proctor_id).role == PeerRole::Proctor
        &&& w.peer(r.proctor_id).room_id == r.id
    } by {
        if r == nr {
            assert(w.peers.contains(np));
            lemma_peer_unique(w, np);
        } else {
            assert(v.rooms.contains(r));
            lemma_peer_kept(v, w, r.proctor_id);
        }
    }
}

proof fn lemma_with_room_roles(
    v: RoomManagerView,
    room_id: Seq<char>,
    proctor_id: Seq<char>,
    name: Option<Seq<char>>,
    created_at: std::time::SystemTime,
)
    requires
        v.roles_agree(),
        v.peers_have_rooms(),
        !v.has_room(room_id),
    ensures
        v.with_room(room_id, proctor_id, name, created_at).roles_agree(),
{
    let w = v.with_room(room_id, proctor_id, name, created_at);
    let nr = RoomView { id: room_id, proctor_id, students: Seq::empty(), created_at };
    let np = PeerView { id: proctor_id, role: PeerRole::Proctor, room_id, name };
    lemma_push_members(v.rooms, nr);
    lemma_push_members(v.peers, np);
    assert forall|p: PeerView, r: RoomView|
        #[trigger] w.peers.contains(p) && #[trigger] w.rooms.contains(r) && p.room_id
            == r.id implies {
        &&& p.role == PeerRole::Proctor ==> p.id == r.proctor_id
        &&& p.role == PeerRole::Student ==> r.students.contains(p.id)
    } by {
        if p == np && r != nr {
            assert(v.rooms.contains(r));
        }
        if p != np && r == nr {
            assert(v.peers.contains(p));
            assert(v.has_room(p.room_id));
        }
        if p != np && r != nr {
            assert(v.peers.contains(p) && v.rooms.contains(r));
        }
    }
}

proof fn lemma_with_room_students(
    v: RoomManagerView,
    room_id: Seq<char>,
    proctor_id: Seq<char>,
    name: Option<Seq<char>>,
    created_at: std::time::SystemTime,
)
    requires
        v.students_are_peers(),
        v.students_distinct(),
        v.room_ids_valid(),
        is_room_id(room_id),
        v.with_room(room_id, proctor_id, name, created_at).ids_distinct(),
    ensures
        v.with_room(room_id, proctor_id, name, created_at).students_are_peers(),
        v.with_room(room_id, proctor_id, name, created_at).students_distinct(),
        v.with_room(room_id, proctor_id, name, created_at).room_ids_valid(),
{
    let w = v.with_room(room_id, proctor_id, name, created_at);
    let nr = RoomView { id: room_id, proctor_id, students: Seq::empty(), created_at };
    let np = PeerView { id: proctor_id, role: PeerRole::Proctor, room_id, name };
    lemma_push_members(v.rooms, nr);
    lemma_push_members(v.peers, np);
    assert forall|r: RoomView, s: Seq<char>|
        #[trigger] w.rooms.contains(r) && #[trigger] r.students.contains(s) implies {
        &&& w.has_peer(s)
        &&& w.peer(s).role == PeerRole::Student
        &&& w.peer(s).room_id == r.id
    } by {
        if r != nr {
            assert(v.rooms.contains(r));
            lemma_peer_kept(v, w, s);
        }
    }
    assert forall|r: RoomView| #[trigger] w.rooms.contains(r) implies keys_distinct(
        r.students,
        text_key(),
    ) && is_room_id(r.id) by {
        if r != nr {
            assert(v.rooms.contains(r));
        }
    }
}

/// A new room with a new proctor keeps the invariant.
pub proof fn lemma_with_room_wf(
    v: RoomManagerView,
    room_id: Seq<char>,
    proctor_id: Seq<char>,
    name: Option<Seq<char>>,
    created_at: std::time::SystemTime,
)
    requires
        v.wf(),
        !v.has_peer(proctor_id),
        !v.has_room(room_id),
        is_room_id(room_id),
    ensures
        v.with_room(room_id, proctor_id, name, created_at).wf(),
{
    lemma_with_room_distinct(v, room_id, proctor_id, name, created_at);
    lemma_with_room_peers_have_rooms(v, room_id, proctor_id, name, created_at);
    lemma_with_room_proctors(v, room_id, proctor_id, name, created_at);
    lemma_with_room_roles(v, room_id, proctor_id, name, created_at);
    lemma_with_room_students(v, room_id, proctor_id, name, created_at);
}

proof fn lemma_with_student_distinct(
    v: RoomManagerView,
    room_id: Seq<char>,
    student_id: Seq<char>,
    name: Option<Seq<char>>,
)
    requires
        v.ids_distinct(),
        v.room_ids_valid(),
        !v.has_peer(student_id),
    ensures
        v.with_student(room_id, student_id, name).ids_distinct(),
        v.with_student(room_id, student_id, name).room_ids_valid(),
{
    let w = v.with_student(room_id, student_id, name);
    assert forall|i: int, j: int| 0 <= i < j < w.peers.len() implies peer_id_key()(
        #[trigger] w.peers[i],
    ) != peer_id_key()(#[trigger] w.peers[j]) by {
        if j == v.peers.len() {
            assert(v.peers.contains(v.peers[i]));
        } else {
            assert(w.peers[i] == v.peers[i] && w.peers[j] == v.peers[j]);
        }
    }
    assert forall|i: int, j: int| 0 <= i < j < w.rooms.len() implies room_id_key()(
        #[trigger] w.rooms[i],
    ) != room_id_key()(#[trigger] w.rooms[j]) by {
        assert(w.rooms[i].id == v.rooms[i].id && w.rooms[j].id == v.rooms[j].id);
    }
    assert forall|r: RoomView| #[trigger] w.rooms.contains(r) implies is_room_id(r.id) by {
        let k = choose|k: int| 0 <= k < w.rooms.len() && w.rooms[k] == r;
        assert(v.rooms.contains(v.rooms[k]));
        assert(r.id == v.rooms[k].id);
    }
}

/// A room that is mapped to a room of the same id is still found by its id.
proof fn lemma_room_mapped(
    v: RoomManagerView,
    w: RoomManagerView,
    f: spec_fn(RoomView) -> RoomView,
    id: Seq<char>,
)
    requires
        v.has_room(id),
        w.rooms == v.rooms.map_values(f),
        forall|r: RoomView| (#[trigger] f(r)).id == r.id,
    ensures
        w.has_room(id),
{
    let r = v.room(id);
    let k = choose|k: int| 0 <= k < v.rooms.len() && v.rooms[k] == r;
    assert(w.rooms[k] == f(r));
    assert(w.rooms.contains(f(r)));
}

proof fn lemma_with_student_links(
    v: RoomManagerView,
    room_id: Seq<char>,
    student_id: Seq<char>,
    name: Option<Seq<char>>,
)
    requires
        v.peers_have_rooms(),
        v.rooms_have_proctors(),
        v.has_room(room_id),
        v.with_student(room_id, student_id, name).ids_distinct(),
    ensures
        v.with_student(room_id, student_id, name).peers_have_rooms(),
        v.with_student(room_id, student_id, name).rooms_have_proctors(),
{
    let w = v.with_student(room_id, student_id, name);
    let f = add_student(room_id, student_id);
    let np = PeerView { id: student_id, role: PeerRole::Student, room_id, name };
    lemma_push_members(v.peers, np);
    assert forall|p: PeerView| #[trigger] w.peers.contains(p) implies w.has_room(p.room_id) by {
        if p != np {
            assert(v.peers.contains(p));
        }
        lemma_room_mapped(v, w, f, p.room_id);
    }
    assert forall|r: RoomView| #[trigger] w.rooms.contains(r) implies {
        &&& w.has_peer(r.proctor_id)
        &&& w.peer(r.proctor_id).role == PeerRole::Proctor
        &&& w.peer(r.proctor_id).room_id == r.id
    } by {
        let k = choose|k: int| 0 <= k < w.rooms.len() && w.rooms[k] == r;
        let r0 = v.rooms[k];
        assert(v.rooms.contains(r0));
        assert(r == f(r0));
        assert(w.peers.contains(v.peer(r0.proctor_id)));
        lemma_peer_kept(v, w, r0.proctor_id);
    }
}

proof fn lemma_with_student_roles(
    v: RoomManagerView,
    room_id: Seq<char>,
    student_id: Seq<char>,
    name: Option<Seq<char>>,
)
    requires
        v.roles_agree(),
    ensures
        v.with_student(room_id, student_id, name).roles_agree(),
{
    let w = v.with_student(room_id, student_id, name);
    let f = add_student(room_id, student_id);
    let np = PeerView { id: student_id, role: PeerRole::Student, room_id, name };
    lemma_push_members(v.peers, np);
    assert forall|p: PeerView, r: RoomView|
        #[trigger] w.peers.contains(p) && #[trigger] w.rooms.contains(r) && p.room_id
            == r.id implies {
        &&& p.role == PeerRole::Proctor ==> p.id == r.proctor_id
        &&& p.role == PeerRole::Student ==> r.students.contains(p.id)
    } by {
        let k = choose|k: int| 0 <= k < w.rooms.len() && w.rooms[k] == r;
        let r0 = v.rooms[k];
        assert(v.rooms.contains(r0));
        assert(r == f(r0));
        if p == np {
            assert(r.students == r0.students.push(student_id));
            assert(r.students[r0.students.len() as int] == student_id);
        } else {
            assert(v.peers.contains(p));
            if p.role == PeerRole::Student {
                lemma_push_members(r0.students, student_id);
            }
        }
    }
}

proof fn lemma_with_student_students(
    v: RoomManagerView,
    room_id: Seq<char>,
    student_id: Seq<char>,
    name: Option<Seq<char>>,
)
    requires
        v.students_are_peers(),
        v.students_distinct(),
        !v.has_peer(student_id),
        v.with_student(room_id, student_id, name).ids_distinct(),
    ensures
        v.with_student(room_id, student_id, name).students_are_peers(),
        v.with_student(room_id, student_id, name).students_distinct(),
{
    let w = v.with_student(room_id, student_id, name);
    let f = add_student(room_id, student_id);
    let np = PeerView { id: student_id, role: PeerRole::Student, room_id, name };
    lemma_push_members(v.peers, np);
    assert(w.peers.contains(np));
    lemma_peer_unique(w, np);
    assert forall|r: RoomView, s: Seq<char>|
        #[trigger] w.rooms.contains(r) && #[trigger] r.students.contains(s) implies {
        &&& w.has_peer(s)
        &&& w.peer(s).role == PeerRole::Student
        &&& w.peer(s).room_id == r.id
    } by {
        let k = choose|k: int| 0 <= k < w.rooms.len() && w.rooms[k] == r;
        let r0 = v.rooms[k];
        assert(v.rooms.contains(r0));
        assert(r == f(r0));
        lemma_push_members(r0.students, student_id);
        if s != student_id {
            assert(r0.students.contains(s));
            assert(w.peers.contains(v.peer(s)));
            lemma_peer_kept(v, w, s);
        }
    }
    assert forall|r: RoomView| #[trigger] w.rooms.contains(r) implies keys_distinct(
        r.students,
        text_key(),
    ) by {
        let k = choose|k: int| 0 <= k < w.rooms.len() && w.rooms[k] == r;
        let r0 = v.rooms[k];
        assert(v.rooms.contains(r0));
        assert(r == f(r0));
        if r0.id == room_id {
            assert forall|i: int, j: int| 0 <= i < j < r.students.len() implies text_key()(
                #[trigger] r.students[i],
            ) != text_key()(#[trigger] r.students[j]) by {
                if j == r0.students.len() {
                    assert(r0.students.contains(r0.students[i]));
                } else {
                    assert(r.students[i] == r0.students[i] && r.students[j] == r0.students[j]);
                }
            }
        }
    }
}

/// A new student in a room that exists keeps the invariant.
pub proof fn lemma_with_student_wf(
    v: RoomManagerView,
    room_id: Seq<char>,
    student_id: Seq<char>,
    name: Option<Seq<char>>,
)
    requires
        v.wf(),
        v.has_room(room_id),
        !v.has_peer(student_id),
    ensures
        v.with_student(room_id, student_id, name).wf(),
{
    lemma_with_student_distinct(v, room_id, student_id, name);
    lemma_with_student_links(v, room_id, student_id, name);
    lemma_with_student_roles(v, room_id, student_id, name);
    lemma_with_student_students(v, room_id, student_id, name);
}

proof fn lemma_proctor_leaves_basic(v: RoomManagerView, room_id: Seq<char>)
    requires
        v.ids_distinct(),
        v.room_ids_valid(),
        v.students_distinct(),
        v.roles_agree(),
    ensures
        (RoomManagerView {
            rooms: v.rooms.filter(room_not(room_id)),
            peers: v.peers.filter(peer_outside(room_id)),
        }).ids_distinct(),
        (RoomManagerView {
            rooms: v.rooms.filter(room_not(room_id)),
            peers: v.peers.filter(peer_outside(room_id)),
        }).room_ids_valid(),
        (RoomManagerView {
            rooms: v.rooms.filter(room_not(room_id)),
            peers: v.peers.filter(peer_outside(room_id)),
        }).students_distinct(),
        (RoomManagerView {
            rooms: v.rooms.filter(room_not(room_id)),
            peers: v.peers.filter(peer_outside(room_id)),
        }).roles_agree(),
{
    let w = RoomManagerView {
        rooms: v.rooms.filter(room_not(room_id)),
        peers: v.peers.filter(peer_outside(room_id)),
    };
    lemma_filter_keys_distinct(v.rooms, room_not(room_id), room_id_key());
    lemma_filter_keys_distinct(v.peers, peer_outside(room_id), peer_id_key());
    lemma_filter_members(v.rooms, room_not(room_id));
    lemma_filter_members(v.peers, peer_outside(room_id));
    assert forall|r: RoomView| #[trigger] w.rooms.contains(r) implies is_room_id(r.id)
        && keys_distinct(r.students, text_key()) by {
        assert(v.rooms.contains(r));
    }
    assert forall|p: PeerView, r: RoomView|
        #[trigger] w.peers.contains(p) && #[trigger] w.rooms.contains(r) && p.room_id
            == r.id implies {
        &&& p.role == PeerRole::Proctor ==> p.id == r.proctor_id
        &&& p.role == PeerRole::Student ==> r.students.contains(p.id)
    } by {
        assert(v.peers.contains(p) && v.rooms.contains(r));
    }
}

proof fn lemma_proctor_leaves_rooms(v: RoomManagerView, room_id: Seq<char>)
    requires
        v.peers_have_rooms(),
    ensures
        (RoomManagerView {
            rooms: v.rooms.filter(room_not(room_id)),
            peers: v.peers.filter(peer_outside(room_id)),
        }).peers_have_rooms(),
{
    let w = RoomManagerView {
        rooms: v.rooms.filter(room_not(room_id)),
        peers: v.peers.filter(peer_outside(room_id)),
    };
    lemma_filter_members(v.rooms, room_not(room_id));
    lemma_filter_members(v.peers, peer_outside(room_id));
    assert forall|p: PeerView| #[trigger] w.peers.contains(p) implies w.has_room(p.room_id) by {
        assert(v.peers.contains(p));
        assert(w.rooms.contains(v.room(p.room_id)));
    }
}

proof fn lemma_proctor_leaves_proctors(v: RoomManagerView, room_id: Seq<char>)
    requires
        v.rooms_have_proctors(),
        keys_distinct(v.peers.filter(peer_outside(room_id)), peer_id_key()),
    ensures
        (RoomManagerView {
            rooms: v.rooms.filter(room_not(room_id)),
            peers: v.peers.filter(peer_outside(room_id)),
        }).rooms_have_proctors(),
{
    let w = RoomManagerView {
        rooms: v.rooms.filter(room_not(room_id)),
        peers: v.peers.filter(peer_outside(room_id)),
    };
    lemma_filter_members(v.rooms, room_not(room_id));
    lemma_filter_members(v.peers, peer_outside(room_id));
    assert forall|r: RoomView| #[trigger] w.rooms.contains(r) implies {
        &&& w.has_peer(r.proctor_id)
        &&& w.peer(r.proctor_id).role == PeerRole::Proctor
        &&& w.peer(r.proctor_id).room_id == r.id
    } by {
        assert(v.rooms.contains(r));
        assert(w.peers.contains(v.peer(r.proctor_id)));
        lemma_peer_kept(v, w, r.proctor_id);
    }
}

proof fn lemma_proctor_leaves_students(v: RoomManagerView, room_id: Seq<char>)
    requires
        v.students_are_peers(),
        keys_distinct(v.peers.filter(peer_outside(room_id)), peer_id_key()),
    ensures
        (RoomManagerView {
            rooms: v.rooms.filter(room_not(room_id)),
            peers: v.peers.filter(peer_outside(room_id)),
        }).students_are_peers(),
{
    let w = RoomManagerView {
        rooms: v.rooms.filter(room_not(room_id)),
        peers: v.peers.filter(peer_outside(room_id)),
    };
    lemma_filter_members(v.rooms, room_not(room_id));
    lemma_filter_members(v.peers, peer_outside(room_id));
    assert forall|r: RoomView, s: Seq<char>|
        #[trigger] w.rooms.contains(r) && #[trigger] r.students.contains(s) implies {
        &&& w.has_peer(s)
        &&& w.peer(s).role == PeerRole::Student
        &&& w.peer(s).room_id == r.id
    } by {
        assert(v.rooms.contains(r));
        assert(w.peers.contains(v.peer(s)));
        lemma_peer_kept(v, w, s);
    }
}

proof fn lemma_proctor_leaves_wf(v: RoomManagerView, room_id: Seq<char>)
    requires
        v.wf(),
    ensures
        (RoomManagerView {
            rooms: v.rooms.filter(room_not(room_id)),
            peers: v.peers.filter(peer_outside(room_id)),
        }).wf(),
{
    lemma_proctor_leaves_basic(v, room_id);
    lemma_proctor_leaves_rooms(v, room_id);
    lemma_proctor_leaves_proctors(v, room_id);
    lemma_proctor_leaves_students(v, room_id);
}

proof fn lemma_student_leaves_basic(v: RoomManagerView, id: Seq<char>)
    requires
        v.wf(),
    ensures
        (RoomManagerView {
            rooms: v.rooms.map_values(drop_student(id)),
            peers: v.peers.filter(peer_not(id)),
        }).ids_distinct(),
        (RoomManagerView {
            rooms: v.rooms.map_values(drop_student(id)),
            peers: v.peers.filter(peer_not(id)),
        }).room_ids_valid(),
        (RoomManagerView {
            rooms: v.rooms.map_values(drop_student(id)),
            peers: v.peers.filter(peer_not(id)),
        }).students_distinct(),
        (RoomManagerView {
            rooms: v.rooms.map_values(drop_student(id)),
            peers: v.peers.filter(peer_not(id)),
        }).peers_have_rooms(),
{
    let f = drop_student(id);
    let w = RoomManagerView { rooms: v.rooms.map_values(f), peers: v.peers.filter(peer_not(id)) };
    lemma_filter_keys_distinct(v.peers, peer_not(id), peer_id_key());
    lemma_filter_members(v.peers, peer_not(id));
    assert forall|i: int, j: int| 0 <= i < j < w.rooms.len() implies room_id_key()(
        #[trigger] w.rooms[i],
    ) != room_id_key()(#[trigger] w.rooms[j]) by {
        assert(w.rooms[i].id == v.rooms[i].id && w.rooms[j].id == v.rooms[j].id);
    }
    assert forall|r: RoomView| #[trigger] w.rooms.contains(r) implies is_room_id(r.id)
        && keys_distinct(r.students, text_key()) by {
        let k = choose|k: int| 0 <= k < w.rooms.len() && w.rooms[k] == r;
        let r0 = v.rooms[k];
        assert(v.rooms.contains(r0));
        assert(r == f(r0));
        lemma_filter_keys_distinct(r0.students, text_not(id), text_key());
    }
    assert forall|p: PeerView| #[trigger] w.peers.contains(p) implies w.has_room(p.room_id) by {
        assert(v.peers.contains(p));
        lemma_room_mapped(v, w, f, p.room_id);
    }
}

proof fn lemma_student_leaves_links(v: RoomManagerView, id: Seq<char>)
    requires
        v.wf(),
        v.has_peer(id),
        v.peer(id).role == PeerRole::Student,
        keys_distinct(v.peers.filter(peer_not(id)), peer_id_key()),
    ensures
        (RoomManagerView {
            rooms: v.rooms.map_values(drop_student(id)),
            peers: v.peers.filter(peer_not(id)),
        }).rooms_have_proctors(),
        (RoomManagerView {
            rooms: v.rooms.map_values(drop_student(id)),
            peers: v.peers.filter(peer_not(id)),
        }).roles_agree(),
        (RoomManagerView {
            rooms: v.rooms.map_values(drop_student(id)),
            peers: v.peers.filter(peer_not(id)),
        }).students_are_peers(),
{
    let f = drop_student(id);
    let w = RoomManagerView { rooms: v.rooms.map_values(f), peers: v.peers.filter(peer_not(id)) };
    lemma_filter_members(v.peers, peer_not(id));
    assert forall|r: RoomView| #[trigger] w.rooms.contains(r) implies {
        &&& w.has_peer(r.proctor_id)
        &&& w.peer(r.proctor_id).role == PeerRole::Proctor
        &&& w.peer(r.proctor_id).room_id == r.id
    } by {
        let k = choose|k: int| 0 <= k < w.rooms.len() && w.rooms[k] == r;
        let r0 = v.rooms[k];
        assert(v.rooms.contains(r0));
        assert(r == f(r0));
        let q = v.peer(r0.proctor_id);
        assert(q.id != id);
        assert(w.peers.contains(q));
        lemma_peer_kept(v, w, r0.proctor_id);
    }
    assert forall|p: PeerView, r: RoomView|
        #[trigger] w.peers.contains(p) && #[trigger] w.rooms.contains(r) && p.room_id
            == r.id implies {
        &&& p.role == PeerRole::Proctor ==> p.id == r.proctor_id
        &&& p.role == PeerRole::Student ==> r.students.contains(p.id)
    } by {
        let k = choose|k: int| 0 <= k < w.rooms.len() && w.rooms[k] == r;
        let r0 = v.rooms[k];
        assert(v.rooms.contains(r0));
        assert(r == f(r0));
        assert(v.peers.contains(p));
        lemma_filter_members(r0.students, text_not(id));
    }
    assert forall|r: RoomView, s: Seq<char>|
        #[trigger] w.rooms.contains(r) && #[trigger] r.students.contains(s) implies {
        &&& w.has_peer(s)
        &&& w.peer(s).role == PeerRole::Student
        &&& w.peer(s).room_id == r.id
    } by {
        let k = choose|k: int| 0 <= k < w.rooms.len() && w.rooms[k] == r;
        let r0 = v.rooms[k];
        assert(v.rooms.contains(r0));
        assert(r == f(r0));
        lemma_filter_members(r0.students, text_not(id));
        assert(r0.students.contains(s));
        assert(w.peers.contains(v.peer(s)));
        lemma_peer_kept(v, w, s);
    }
}

/// A peer's leaving keeps the invariant.
pub proof fn lemma_without_peer_wf(v: RoomManagerView, id: Seq<char>)
    requires
        v.wf(),
        v.has_peer(id),
    ensures
        v.without_peer(id).wf(),
{
    let p = v.peer(id);
    if p.role == PeerRole::Proctor {
        lemma_proctor_leaves_wf(v, p.room_id);
    } else {
        lemma_student_leaves_basic(v, id);
        lemma_student_leaves_links(v, id);
    }
}

/// After a room has been made, the room and its proctor are found under their ids, and
/// every peer and room that was there before is found as before.
pub proof fn lemma_with_room_lookup(
    v: RoomManagerView,
    room_id: Seq<char>,
    proctor_id: Seq<char>,
    name: Option<Seq<char>>,
    created_at: std::time::SystemTime,
)
    requires
        v.wf(),
        !v.has_peer(proctor_id),
        !v.has_room(room_id),
        is_room_id(room_id),
    ensures
        ({
            let w = v.with_room(room_id, proctor_id, name, created_at);
            &&& w.has_room(room_id)
            &&& w.room(room_id) == RoomView {
                id: room_id,
                proctor_id,
                students: Seq::empty(),
                created_at,
            }
            &&& w.has_peer(proctor_id)
            &&& w.peer(proctor_id) == PeerView {
                id: proctor_id,
                role: PeerRole::Proctor,
                room_id,
                name,
            }
            &&& forall|id: Seq<char>|
                v.has_peer(id) ==> #[trigger] w.has_peer(id) && w.peer(id) == v.peer(id)
            &&& forall|id: Seq<char>|
                v.has_room(id) ==> #[trigger] w.has_room(id) && w.room(id) == v.room(id)
            &&& forall|id: Seq<char>| #[trigger] w.has_peer(id) ==> v.has_peer(id) || id == proctor_id
            &&& forall|id: Seq<char>| #[trigger] w.has_room(id) ==> v.has_room(id) || id == room_id
        }),
{
    let w = v.with_room(room_id, proctor_id, name, created_at);
    let nr = RoomView { id: room_id, proctor_id, students: Seq::empty(), created_at };
    let np = PeerView { id: proctor_id, role: PeerRole::Proctor, room_id, name };
    lemma_with_room_wf(v, room_id, proctor_id, name, created_at);
    lemma_push_members(v.rooms, nr);
    lemma_push_members(v.peers, np);
    assert(w.peers.contains(np));
    assert(w.rooms.contains(nr));
    lemma_peer_unique(w, np);
    lemma_room_unique(w, nr);
    assert forall|id: Seq<char>| v.has_peer(id) implies #[trigger] w.has_peer(id) && w.peer(id)
        == v.peer(id) by {
        assert(w.peers.contains(v.peer(id)));
        lemma_peer_unique(w, v.peer(id));
    }
    assert forall|id: Seq<char>| v.has_room(id) implies #[trigger] w.has_room(id) && w.room(id)
        == v.room(id) by {
        assert(w.rooms.contains(v.room(id)));
        lemma_room_unique(w, v.room(id));
    }
    assert forall|id: Seq<char>| #[trigger] w.has_peer(id) implies v.has_peer(id) || id
        == proctor_id by {
        assert(w.peers.contains(w.peer(id)));
    }
    assert forall|id: Seq<char>| #[trigger] w.has_room(id) implies v.has_room(id) || id
        == room_id by {
        assert(w.rooms.contains(w.room(id)));
    }
}

/// After a student has joined, the student is found under its id, at the end of the list of
/// its room; every peer that was there before is found as before; and the rooms are those
/// that were there before.
pub proof fn lemma_with_student_lookup(
    v: RoomManagerView,
    room_id: Seq<char>,
    student_id: Seq<char>,
    name: Option<Seq<char>>,
)
    requires
        v.wf(),
        v.has_room(room_id),
        !v.has_peer(student_id),
    ensures
        ({
            let w = v.with_student(room_id, student_id, name);
            &&& w.has_peer(student_id)
            &&& w.peer(student_id) == PeerView {
                id: student_id,
                role: PeerRole::Student,
                room_id,
                name,
            }
            &&& forall|id: Seq<char>|
                v.has_peer(id) ==> #[trigger] w.has_peer(id) && w.peer(id) == v.peer(id)
            &&& forall|id: Seq<char>| #[trigger] w.has_peer(id) ==> v.has_peer(id) || id == student_id
            &&& forall|id: Seq<char>| #[trigger] w.has_room(id) == v.has_room(id)
            &&& w.room(room_id) == RoomView {
                students: v.room(room_id).students.push(student_id),
                ..v.room(room_id)
            }
            &&& forall|id: Seq<char>|
                v.has_room(id) && id != room_id ==> #[trigger] w.room(id) == v.room(id)
        }),
{
    let w = v.with_student(room_id, student_id, name);
    let f = add_student(room_id, student_id);
    let np = PeerView { id: student_id, role: PeerRole::Student, room_id, name };
    lemma_with_student_wf(v, room_id, student_id, name);
    lemma_push_members(v.peers, np);
    assert(w.peers.contains(np));
    lemma_peer_unique(w, np);
    assert forall|id: Seq<char>| v.has_peer(id) implies #[trigger] w.has_peer(id) && w.peer(id)
        == v.peer(id) by {
        assert(w.peers.contains(v.peer(id)));
        lemma_peer_unique(w, v.peer(id));
    }
    assert forall|id: Seq<char>| #[trigger] w.has_peer(id) implies v.has_peer(id) || id
        == student_id by {
        assert(w.peers.contains(w.peer(id)));
    }
    assert forall|id: Seq<char>| v.has_room(id) implies w.has_room(id) && w.room(id) == f(
        v.room(id),
    ) by {
        let r = v.room(id);
        let k = choose|k: int| 0 <= k < v.rooms.len() && v.rooms[k] == r;
        assert(w.rooms[k] == f(r));
        assert(w.rooms.contains(f(r)));
        lemma_room_unique(w, f(r));
    }
    assert forall|id: Seq<char>| w.has_room(id) implies v.has_room(id) by {
        let r = w.room(id);
        let k = choose|k: int| 0 <= k < w.rooms.len() && w.rooms[k] == r;
        assert(v.rooms.contains(v.rooms[k]));
        assert(r == f(v.rooms[k]));
    }
}

/// Every peer of the registry is in a room of the registry.
pub proof fn lemma_peer_room_exists(v: RoomManagerView, peer_id: Seq<char>)
    requires
        v.wf(),
        v.has_peer(peer_id),
    ensures
        v.has_room(v.peer(peer_id).room_id),
{
    assert(v.peers.contains(v.peer(peer_id)));
}

/// The proctor that a room names is a peer, has the proctor's role, and is in that room.
pub proof fn lemma_room_proctor_is_peer(v: RoomManagerView, room_id: Seq<char>)
    requires
        v.wf(),
        v.has_room(room_id),
    ensures
        v.has_peer(v.room(room_id).proctor_id),
        v.peer(v.room(room_id).proctor_id).role == PeerRole::Proctor,
        v.peer(v.room(room_id).proctor_id).room_id == room_id,
{
    assert(v.rooms.contains(v.room(room_id)));
}

/// Nobody's media is forwarded to themselves.
pub proof fn lemma_never_forward_to_self(v: RoomManagerView, id: Seq<char>)
    ensures
        !v.should_forward(id, id),
{
}

/// Forwarding between two peers goes both ways or neither way. It goes neither way between two
/// students, to or from an unknown peer, and across rooms; it goes both ways between the
/// proctor of a room and another peer of that room.
pub proof fn lemma_forward_policy(v: RoomManagerView, a: Seq<char>, b: Seq<char>)
    ensures
        v.should_forward(a, b) == v.should_forward(b, a),
        v.has_peer(a) && v.has_peer(b) && v.peer(a).role == PeerRole::Student && v.peer(b).role
            == PeerRole::Student ==> !v.should_forward(a, b),
        !v.has_peer(a) || !v.has_peer(b) ==> !v.should_forward(a, b),
        v.has_peer(a) && v.has_peer(b) && v.peer(a).room_id != v.peer(b).room_id
            ==> !v.should_forward(a, b),
        a != b && v.has_peer(a) && v.has_peer(b) && v.peer(a).room_id == v.peer(b).room_id
            && v.peer(a).role == PeerRole::Proctor ==> v.should_forward(a, b)
            && v.should_forward(b, a),
{
}

/// When a proctor leaves, the room is gone and so is every student that it listed.
pub proof fn lemma_proctor_leave_closes_room(v: RoomManagerView, proctor_id: Seq<char>)
    requires
        v.wf(),
        v.has_peer(proctor_id),
        v.peer(proctor_id).role == PeerRole::Proctor,
    ensures
        !v.without_peer(proctor_id).has_room(v.peer(proctor_id).room_id),
        !v.without_peer(proctor_id).has_peer(proctor_id),
        forall|s: Seq<char>| #[trigger]
            v.room(v.peer(proctor_id).room_id).students.contains(s) ==> !v.without_peer(
                proctor_id,
            ).has_peer(s),
{
    let p = v.peer(proctor_id);
    let rid = p.room_id;
    let w = v.without_peer(proctor_id);
    lemma_filter_members(v.rooms, room_not(rid));
    lemma_filter_members(v.peers, peer_outside(rid));
    assert(v.peers.contains(p));
    assert(v.rooms.contains(v.room(rid)));
    assert(!w.has_peer(proctor_id)) by {
        if w.has_peer(proctor_id) {
            let q = w.peer(proctor_id);
            assert(w.peers.contains(q));
            lemma_peer_unique(v, q);
        }
    }
    assert forall|s: Seq<char>| #[trigger]
        v.room(rid).students.contains(s) implies !w.has_peer(s) by {
        if w.has_peer(s) {
            let q = w.peer(s);
            assert(w.peers.contains(q));
            lemma_peer_unique(v, q);
        }
    }
}

/// After a request to remove a peer the peer is gone, so that a second request finds nothing
/// and changes nothing.
pub proof fn lemma_remove_twice(v: RoomManagerView, id: Seq<char>)
    requires
        v.wf(),
    ensures
        !v.after_remove(id).has_peer(id),
        v.after_remove(id).after_remove(id) == v.after_remove(id),
{
    if v.has_peer(id) {
        let p = v.peer(id);
        let w = v.without_peer(id);
        assert(v.peers.contains(p));
        lemma_filter_members(v.peers, peer_outside(p.room_id));
        lemma_filter_members(v.peers, peer_not(id));
        if w.has_peer(id) {
            let q = w.peer(id);
            assert(w.peers.contains(q));
            lemma_peer_unique(v, q);
        }
    }
}

/// A second request to join with the same ids changes nothing, and is allowed where the first
/// was.
pub proof fn lemma_join_twice(
    v: RoomManagerView,
    room_id: Seq<char>,
    student_id: Seq<char>,
    name: Option<Seq<char>>,
    name_again: Option<Seq<char>>,
)
    requires
        v.wf(),
    ensures
        v.after_join(room_id, student_id, name).after_join(room_id, student_id, name_again)
            == v.after_join(room_id, student_id, name),
        v.join_allowed(room_id, student_id) ==> v.after_join(
            room_id,
            student_id,
            name,
        ).join_allowed(room_id, student_id),
{
    if v.has_room(room_id) && !v.has_peer(student_id) {
        let w = v.with_student(room_id, student_id, name);
        let np = PeerView { id: student_id, role: PeerRole::Student, room_id, name };
        lemma_with_student_wf(v, room_id, student_id, name);
        lemma_push_members(v.peers, np);
        assert(w.peers.contains(np));
        lemma_peer_unique(w, np);
        lemma_room_mapped(v, w, add_student(room_id, student_id), room_id);
    }
}

/// A participant of a room.
#[derive(Debug, Clone, PartialEq, Eq)]
pub struct Peer {
    pub id: String,
    pub role: PeerRole,
    pub room_id: String,
    pub name: Option<String>,
}

impl View for Peer {
    type V = PeerView;

    open spec fn view(&self) -> PeerView {
        PeerView {
            id: self.id@,
            role: self.role,
            room_id: self.room_id@,
            name: opt_view(self.name),
        }
    }
}

/// A room: its proctor, its students in the order in which they joined, and when it was made.
#[derive(Debug, Clone, PartialEq, Eq)]
pub struct Room {
    pub id: String,
    pub proctor_id: String,
    pub students: Vec<String>,
    pub created_at: SystemTime,
}

impl View for Room {
    type V = RoomView;

    open spec fn view(&self) -> RoomView {
        RoomView {
            id: self.id@,
            proctor_id: self.proctor_id@,
            students: text_views(self.students@),
            created_at: self.created_at,
        }
    }
}

/// The peers of a list as the contracts see them.
pub open spec fn peer_views(s: Seq<Peer>) -> Seq<PeerView> {
    s.map_values(|p: Peer| p@)
}

/// The rooms of a list as the contracts see them.
pub open spec fn room_views(s: Seq<Room>) -> Seq<RoomView> {
    s.map_values(|r: Room| r@)
}

/// How often `create_room` draws a room number before it gives up.
pub const MAX_ROOM_ID_ATTEMPTS: u32 = 16;

/// `rand::Rng::gen_range` on the thread's generator, over `100000..=999999`: a number of that
/// range, and nothing more is claimed of it.
#[verifier::external_body]
fn random_room_number() -> (n: u32)
    ensures
        100000 <= n <= 999999,
{
    rand::thread_rng().gen_range(100000..=999999)
}

/// The text of a room number.
pub fn room_id_string(number: u32) -> (s: String)
    requires
        100000 <= number <= 999999,
    ensures
        s@ == room_id_text(number as nat),
{
    let mut s = String::new();
    s.append(digit_str(((number / 100000) % 10) as u8));
    s.append(digit_str(((number / 10000) % 10) as u8));
    s.append(digit_str(((number / 1000) % 10) as u8));
    s.append(digit_str(((number / 100) % 10) as u8));
    s.append(digit_str(((number / 10) % 10) as u8));
    s.append(digit_str((number % 10) as u8));
    assert(s@ =~= room_id_text(number as nat));
    s
}

fn clone_peer(p: &Peer) -> (r: Peer)
    ensures
        r@ == p@,
{
    Peer {
        id: p.id.clone(),
        role: p.role,
        room_id: p.room_id.clone(),
        name: clone_opt_string(&p.name),
    }
}

fn clone_room(r: &Room) -> (c: Room)
    ensures
        c@ == r@,
{
    Room {
        id: r.id.clone(),
        proctor_id: r.proctor_id.clone(),
        students: clone_strings(&r.students),
        created_at: r.created_at,
    }
}

fn peers_kept_outside(peers: &Vec<Peer>, room_id: &str) -> (out: Vec<Peer>)
    ensures
        peer_views(out@) == peer_views(peers@).filter(peer_outside(room_id@)),
{
    let mut out: Vec<Peer> = Vec::new();
    let mut i: usize = 0;
    proof {
        lemma_filter_start(peer_views(peers@), peer_outside(room_id@));
        assert(peer_views(out@) =~= Seq::<PeerView>::empty());
    }
    while i < peers.len()
        invariant
            i <= peers.len(),
            peer_views(out@) == peer_views(peers@).take(i as int).filter(peer_outside(room_id@)),
        decreases peers.len() - i,
    {
        proof {
            lemma_filter_step(peer_views(peers@), peer_outside(room_id@), i as int);
        }
        let ghost before = out@;
        if !str_eq(peers[i].room_id.as_str(), room_id) {
            out.push(clone_peer(&peers[i]));
            assert(peer_views(out@) =~= peer_views(before).push(peers@[i as int]@));
        }
        i += 1;
    }
    assert(peer_views(peers@).take(i as int) =~= peer_views(peers@));
    out
}

fn peers_kept_inside(peers: &Vec<Peer>, room_id: &str) -> (out: Vec<Peer>)
    ensures
        peer_views(out@) == peer_views(peers@).filter(peer_inside(room_id@)),
{
    let mut out: Vec<Peer> = Vec::new();
    let mut i: usize = 0;
    proof {
        lemma_filter_start(peer_views(peers@), peer_inside(room_id@));
        assert(peer_views(out@) =~= Seq::<PeerView>::empty());
    }
    while i < peers.len()
        invariant
            i <= peers.len(),
            peer_views(out@) == peer_views(peers@).take(i as int).filter(peer_inside(room_id@)),
        decreases peers.len() - i,
    {
        proof {
            lemma_filter_step(peer_views(peers@), peer_inside(room_id@), i as int);
        }
        let ghost before = out@;
        if str_eq(peers[i].room_id.as_str(), room_id) {
            out.push(clone_peer(&peers[i]));
            assert(peer_views(out@) =~= peer_views(before).push(peers@[i as int]@));
        }
        i += 1;
    }
    assert(peer_views(peers@).take(i as int) =~= peer_views(peers@));
    out
}

fn peers_kept_but(peers: &Vec<Peer>, id: &str) -> (out: Vec<Peer>)
    ensures
        peer_views(out@) == peer_views(peers@).filter(peer_not(id@)),
{
    let mut out: Vec<Peer> = Vec::new();
    let mut i: usize = 0;
    proof {
        lemma_filter_start(peer_views(peers@), peer_not(id@));
        assert(peer_views(out@) =~= Seq::<PeerView>::empty());
    }
    while i < peers.len()
        invariant
            i <= peers.len(),
            peer_views(out@) == peer_views(peers@).take(i as int).filter(peer_not(id@)),
        decreases peers.len() - i,
    {
        proof {
            lemma_filter_step(peer_views(peers@), peer_not(id@), i as int);
        }
        let ghost before = out@;
        if !str_eq(peers[i].id.as_str(), id) {
            out.push(clone_peer(&peers[i]));
            assert(peer_views(out@) =~= peer_views(before).push(peers@[i as int]@));
        }
        i += 1;
    }
    assert(peer_views(peers@).take(i as int) =~= peer_views(peers@));
    out
}

fn rooms_kept_but(rooms: &Vec<Room>, room_id: &str) -> (out: Vec<Room>)
    ensures
        room_views(out@) == room_views(rooms@).filter(room_not(room_id@)),
{
    let mut out: Vec<Room> = Vec::new();
    let mut i: usize = 0;
    proof {
        lemma_filter_start(room_views(rooms@), room_not(room_id@));
        assert(room_views(out@) =~= Seq::<RoomView>::empty());
    }
    while i < rooms.len()
        invariant
            i <= rooms.len(),
            room_views(out@) == room_views(rooms@).take(i as int).filter(room_not(room_id@)),
        decreases rooms.len() - i,
    {
        proof {
            lemma_filter_step(room_views(rooms@), room_not(room_id@), i as int);
        }
        let ghost before = out@;
        if !str_eq(rooms[i].id.as_str(), room_id) {
            out.push(clone_room(&rooms[i]));
            assert(room_views(out@) =~= room_views(before).push(rooms@[i as int]@));
        }
        i += 1;
    }
    assert(room_views(rooms@).take(i as int) =~= room_views(rooms@));
    out
}

fn texts_kept_but(texts: &Vec<String>, t: &str) -> (out: Vec<String>)
    ensures
        text_views(out@) == text_views(texts@).filter(text_not(t@)),
{
    let mut out: Vec<String> = Vec::new();
    let mut i: usize = 0;
    proof {
        lemma_filter_start(text_views(texts@), text_not(t@));
        assert(text_views(out@) =~= Seq::<Seq<char>>::empty());
    }
    while i < texts.len()
        invariant
            i <= texts.len(),
            text_views(out@) == text_views(texts@).take(i as int).filter(text_not(t@)),
        decreases texts.len() - i,
    {
        proof {
            lemma_filter_step(text_views(texts@), text_not(t@), i as int);
        }
        let ghost before = out@;
        if !str_eq(texts[i].as_str(), t) {
            out.push(texts[i].clone());
            assert(text_views(out@) =~= text_views(before).push(texts@[i as int]@));
        }
        i += 1;
    }
    assert(text_views(texts@).take(i as int) =~= text_views(texts@));
    out
}

fn rooms_without_student(rooms: &Vec<Room>, student_id: &str) -> (out: Vec<Room>)
    ensures
        room_views(out@) == room_views(rooms@).map_values(drop_student(student_id@)),
{
    let mut out: Vec<Room> = Vec::new();
    let mut i: usize = 0;
    while i < rooms.len()
        invariant
            i <= rooms.len(),
            out.len() == i,
            forall|k: int| 0 <= k < i ==> (#[trigger] out[k])@ == drop_student(student_id@)(rooms[k]@),
        decreases rooms.len() - i,
    {
        let r = &rooms[i];
        out.push(
            Room {
                id: r.id.clone(),
                proctor_id: r.proctor_id.clone(),
                students: texts_kept_but(&r.students, student_id),
                created_at: r.created_at,
            },
        );
        i += 1;
    }
    assert(room_views(out@) =~= room_views(rooms@).map_values(drop_student(student_id@)));
    out
}

fn rooms_with_student(rooms: &Vec<Room>, room_id: &str, student_id: &str) -> (out: Vec<Room>)
    ensures
        room_views(out@) == room_views(rooms@).map_values(add_student(room_id@, student_id@)),
{
    let mut out: Vec<Room> = Vec::new();
    let mut i: usize = 0;
    while i < rooms.len()
        invariant
            i <= rooms.len(),
            out.len() == i,
            forall|k: int|
                0 <= k < i ==> (#[trigger] out[k])@ == add_student(room_id@, student_id@)(
                    rooms[k]@,
                ),
        decreases rooms.len() - i,
    {
        let mut room = clone_room(&rooms[i]);
        if str_eq(room.id.as_str(), room_id) {
            let ghost before = room.students@;
            room.students.push(student_id.to_owned());
            assert(text_views(room.students@) =~= text_views(before).push(student_id@));
        }
        out.push(room);
        i += 1;
    }
    assert(room_views(out@) =~= room_views(rooms@).map_values(
        add_student(room_id@, student_id@),
    ));
    out
}

/// The registry of rooms and peers.
pub struct RoomManager {
    rooms: Vec<Room>,
    peers: Vec<Peer>,
}

impl View for RoomManager {
    type V = RoomManagerView;

    closed spec fn view(&self) -> RoomManagerView {
        RoomManagerView { rooms: room_views(self.rooms@), peers: peer_views(self.peers@) }
    }
}

impl RoomManager {
    /// An empty registry.
    pub fn new() -> (m: RoomManager)
        ensures
            m@.rooms.len() == 0,
            m@.peers.len() == 0,
            m@.wf(),
    {
        RoomManager { rooms: Vec::new(), peers: Vec::new() }
    }

    fn find_peer(&self, id: &str) -> (r: Option<usize>)
        ensures
            match r {
                Some(i) => i < self.peers.len() && self.peers[i as int].id@ == id@
                    && self@.peers.contains(self.peers[i as int]@),
                None => !self@.has_peer(id@),
            },
    {
        let mut i: usize = 0;
        while i < self.peers.len()
            invariant
                i <= self.peers.len(),
                forall|k: int| 0 <= k < i ==> (#[trigger] self.peers[k]).id@ != id@,
            decreases self.peers.len() - i,
        {
            if str_eq(self.peers[i].id.as_str(), id) {
                assert(self@.peers[i as int] == self.peers[i as int]@);
                return Some(i);
            }
            i += 1;
        }
        assert forall|p: PeerView| #[trigger] self@.peers.contains(p) implies p.id != id@ by {
            let k = choose|k: int| 0 <= k < self@.peers.len() && self@.peers[k] == p;
            assert(p == self.peers[k]@);
        }
        None
    }

    fn find_room(&self, id: &str) -> (r: Option<usize>)
        ensures
            match r {
                Some(i) => i < self.rooms.len() && self.rooms[i as int].id@ == id@
                    && self@.rooms.contains(self.rooms[i as int]@),
                None => !self@.has_room(id@),
            },
    {
        let mut i: usize = 0;
        while i < self.rooms.len()
            invariant
                i <= self.rooms.len(),
                forall|k: int| 0 <= k < i ==> (#[trigger] self.rooms[k]).id@ != id@,
            decreases self.rooms.len() - i,
        {
            if str_eq(self.rooms[i].id.as_str(), id) {
                assert(self@.rooms[i as int] == self.rooms[i as int]@);
                return Some(i);
            }
            i += 1;
        }
        assert forall|r: RoomView| #[trigger] self@.rooms.contains(r) implies r.id != id@ by {
            let k = choose|k: int| 0 <= k < self@.rooms.len() && self@.rooms[k] == r;
            assert(r == self.rooms[k]@);
        }
        None
    }

    /// Whether there is a room with this id.
    pub fn room_exists(&self, room_id: &str) -> (b: bool)
        ensures
            b == self@.has_room(room_id@),
    {
        self.find_room(room_id).is_some()
    }

    /// The peer with this id.
    pub fn get_peer(&self, peer_id: &str) -> (r: Option<Peer>)
        requires
            self@.wf(),
        ensures
            match r {
                Some(p) => self@.has_peer(peer_id@) && p@ == self@.peer(peer_id@),
                None => !self@.has_peer(peer_id@),
            },
    {
        match self.find_peer(peer_id) {
            Some(i) => {
                proof {
                    lemma_peer_unique(self@, self.peers[i as int]@);
                }
                Some(clone_peer(&self.peers[i]))
            },
            None => None,
        }
    }

    /// A copy of the room with this id.
    pub fn get_room(&self, room_id: &str) -> (r: Option<Room>)
        requires
            self@.wf(),
        ensures
            match r {
                Some(room) => self@.has_room(room_id@) && room@ == self@.room(room_id@),
                None => !self@.has_room(room_id@),
            },
    {
        match self.find_room(room_id) {
            Some(i) => {
                proof {
                    lemma_room_unique(self@, self.rooms[i as int]@);
                }
                Some(clone_room(&self.rooms[i]))
            },
            None => None,
        }
    }

    /// The id of the proctor of a room.
    pub fn get_room_proctor(&self, room_id: &str) -> (r: Option<String>)
        requires
            self@.wf(),
        ensures
            match r {
                Some(id) => self@.has_room(room_id@) && id@ == self@.room(room_id@).proctor_id,
                None => !self@.has_room(room_id@),
            },
    {
        match self.find_room(room_id) {
            Some(i) => {
                proof {
                    lemma_room_unique(self@, self.rooms[i as int]@);
                }
                Some(self.rooms[i].proctor_id.clone())
            },
            None => None,
        }
    }

    /// The peers of a room, in the order in which they came.
    pub fn get_room_peers(&self, room_id: &str) -> (r: Vec<Peer>)
        ensures
            peer_views(r@) == self@.room_peers(room_id@),
    {
        peers_kept_inside(&self.peers, room_id)
    }

    /// Whether media of `from_peer` is forwarded to `to_peer`.
    pub fn should_forward_track(&self, from_peer: &str, to_peer: &str) -> (b: bool)
        requires
            self@.wf(),
        ensures
            b == self@.should_forward(from_peer@, to_peer@),
    {
        if str_eq(from_peer, to_peer) {
            return false;
        }
        match self.find_peer(from_peer) {
            None => false,
            Some(i) => match self.find_peer(to_peer) {
                None => false,
                Some(j) => {
                    proof {
                        lemma_peer_unique(self@, self.peers[i as int]@);
                        lemma_peer_unique(self@, self.peers[j as int]@);
                    }
                    let a = &self.peers[i];
                    let b = &self.peers[j];
                    str_eq(a.room_id.as_str(), b.room_id.as_str()) && (a.role == PeerRole::Proctor
                        || b.role == PeerRole::Proctor)
                },
            },
        }
    }

    /// Makes the room with the given number for a proctor, at the given time. The proctor's id
    /// must be new, and so must the room's.
    pub fn create_room_with(
        &mut self,
        proctor_id: String,
        proctor_name: Option<String>,
        number: u32,
        now: SystemTime,
    ) -> (res: Result<String, SfuError>)
        requires
            old(self)@.wf(),
            100000 <= number <= 999999,
        ensures
            final(self)@.wf(),
            match res {
                Ok(id) => {
                    &&& !old(self)@.has_peer(proctor_id@)
                    &&& !old(self)@.has_room(id@)
                    &&& id@ == room_id_text(number as nat)
                    &&& final(self)@ == old(self)@.with_room(
                        id@,
                        proctor_id@,
                        opt_view(proctor_name),
                        now,
                    )
                },
                Err(SfuError::PeerAlreadyExists(e)) => {
                    &&& old(self)@.has_peer(proctor_id@)
                    &&& e@ == proctor_id@
                    &&& final(self)@ == old(self)@
                },
                Err(SfuError::RoomAlreadyExists(e)) => {
                    &&& !old(self)@.has_peer(proctor_id@)
                    &&& old(self)@.has_room(e@)
                    &&& e@ == room_id_text(number as nat)
                    &&& final(self)@ == old(self)@
                },
                Err(_) => false,
            },
    {
        if self.find_peer(proctor_id.as_str()).is_some() {
            return Err(SfuError::PeerAlreadyExists(proctor_id));
        }
        let room_id = room_id_string(number);
        if self.find_room(room_id.as_str()).is_some() {
            return Err(SfuError::RoomAlreadyExists(room_id));
        }
        proof {
            lemma_room_id_text_valid(number as nat);
            lemma_with_room_wf(self@, room_id@, proctor_id@, opt_view(proctor_name), now);
        }
        let ghost before_rooms = self.rooms@;
        let ghost before_peers = self.peers@;
        let room = Room {
            id: room_id.clone(),
            proctor_id: proctor_id.clone(),
            students: Vec::new(),
            created_at: now,
        };
        let peer = Peer {
            id: proctor_id,
            role: PeerRole::Proctor,
            room_id: room_id.clone(),
            name: proctor_name,
        };
        assert(room@.students =~= Seq::<Seq<char>>::empty());
        self.rooms.push(room);
        self.peers.push(peer);
        assert(room_views(self.rooms@) =~= room_views(before_rooms).push(room@));
        assert(peer_views(self.peers@) =~= peer_views(before_peers).push(peer@));
        Ok(room_id)
    }

    /// Makes a room for a proctor under a six-digit number drawn at random, drawing again while
    /// the number is taken, up to `MAX_ROOM_ID_ATTEMPTS` times.
    pub fn create_room(&mut self, proctor_id: String, proctor_name: Option<String>) -> (res:
        Result<String, SfuError>)
        requires
            old(self)@.wf(),
        ensures
            final(self)@.wf(),
            match res {
                Ok(id) => {
                    &&& !old(self)@.has_peer(proctor_id@)
                    &&& !old(self)@.has_room(id@)
                    &&& is_room_id(id@)
                    &&& final(self)@.rooms.len() == old(self)@.rooms.len() + 1
                    &&& final(self)@ == old(self)@.with_room(
                        id@,
                        proctor_id@,
                        opt_view(proctor_name),
                        final(self)@.rooms.last().created_at,
                    )
                },
                Err(SfuError::PeerAlreadyExists(e)) => {
                    &&& old(self)@.has_peer(proctor_id@)
                    &&& e@ == proctor_id@
                    &&& final(self)@ == old(self)@
                },
                Err(SfuError::RoomAlreadyExists(e)) => {
                    &&& !old(self)@.has_peer(proctor_id@)
                    &&& old(self)@.has_room(e@)
                    &&& is_room_id(e@)
                    &&& final(self)@ == old(self)@
                },
                Err(_) => false,
            },
            !old(self)@.has_peer(proctor_id@) && old(self)@.rooms.len() == 0 ==> res is Ok,
    {
        let mut number = random_room_number();
        let mut attempts: u32 = 1;
        while attempts < MAX_ROOM_ID_ATTEMPTS && self.room_exists(room_id_string(number).as_str())
            invariant
                100000 <= number <= 999999,
                attempts <= MAX_ROOM_ID_ATTEMPTS,
            decreases MAX_ROOM_ID_ATTEMPTS - attempts,
        {
            number = random_room_number();
            attempts += 1;
        }
        proof {
            lemma_room_id_text_valid(number as nat);
        }
        let now = SystemTime::now();
        let res = self.create_room_with(proctor_id, proctor_name, number, now);
        proof {
            if res is Ok {
                assert(self@.rooms.last().created_at == now);
            }
        }
        res
    }

    /// Puts a student into a room. A student who is already in that room stays as they are.
    pub fn join_room(&mut self, room_id: String, student_id: String, name: Option<String>) -> (res:
        Result<(), SfuError>)
        requires
            old(self)@.wf(),
        ensures
            final(self)@.wf(),
            final(self)@ == old(self)@.after_join(room_id@, student_id@, opt_view(name)),
            match res {
                Ok(_) => old(self)@.join_allowed(room_id@, student_id@),
                Err(SfuError::RoomNotFound(e)) => !old(self)@.has_room(room_id@) && e@
                    == room_id@,
                Err(SfuError::PeerAlreadyExists(e)) => old(self)@.has_room(room_id@)
                    && !old(self)@.join_allowed(room_id@, student_id@) && e@ == student_id@,
                Err(_) => false,
            },
    {
        if !self.room_exists(room_id.as_str()) {
            return Err(SfuError::RoomNotFound(room_id));
        }
        match self.find_peer(student_id.as_str()) {
            Some(i) => {
                proof {
                    lemma_peer_unique(self@, self.peers[i as int]@);
                }
                let known = &self.peers[i];
                if known.role == PeerRole::Student && str_eq(
                    known.room_id.as_str(),
                    room_id.as_str(),
                ) {
                    Ok(())
                } else {
                    Err(SfuError::PeerAlreadyExists(student_id))
                }
            },
            None => {
                proof {
                    lemma_with_student_wf(self@, room_id@, student_id@, opt_view(name));
                }
                let ghost before_peers = self.peers@;
                let rooms = rooms_with_student(&self.rooms, room_id.as_str(), student_id.as_str());
                let peer = Peer { id: student_id, role: PeerRole::Student, room_id, name };
                self.rooms = rooms;
                self.peers.push(peer);
                assert(peer_views(self.peers@) =~= peer_views(before_peers).push(peer@));
                Ok(())
            },
        }
    }

    /// Takes a peer out of the registry and says which room it was in, in which role and
    /// under which name. With a proctor the room goes, and every peer of it.
    pub fn remove_peer(&mut self, peer_id: &str) -> (res: Option<(String, PeerRole, Option<String>)>)
        requires
            old(self)@.wf(),
        ensures
            final(self)@.wf(),
            final(self)@ == old(self)@.after_remove(peer_id@),
            match res {
                Some(info) => {
                    &&& old(self)@.has_peer(peer_id@)
                    &&& info.0@ == old(self)@.peer(peer_id@).room_id
                    &&& info.1 == old(self)@.peer(peer_id@).role
                    &&& opt_view(info.2) == old(self)@.peer(peer_id@).name
                },
                None => !old(self)@.has_peer(peer_id@),
            },
    {
        match self.find_peer(peer_id) {
            None => None,
            Some(i) => {
                proof {
                    lemma_peer_unique(self@, self.peers[i as int]@);
                    lemma_without_peer_wf(self@, peer_id@);
                }
                let room_id = self.peers[i].room_id.clone();
                let role = self.peers[i].role;
                let name = clone_opt_string(&self.peers[i].name);
                if role == PeerRole::Proctor {
                    let rooms = rooms_kept_but(&self.rooms, room_id.as_str());
                    let peers = peers_kept_outside(&self.peers, room_id.as_str());
                    self.rooms = rooms;
                    self.peers = peers;
                } else {
                    let rooms = rooms_without_student(&self.rooms, peer_id);
                    let peers = peers_kept_but(&self.peers, peer_id);
                    self.rooms = rooms;
                    self.peers = peers;
                }
                Some((room_id, role, name))
            },
        }
    }
}

} // verus!
