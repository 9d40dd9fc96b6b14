use crate::strmap::{lemma_strmap_put, StrMap, StrMapView};
use crate::substrate::client::{
    activity_code, close_reason_code, leave_reason_code, role_code, text_or_empty,
    verification_status_code, ContractCall, ContractCallView, ContractClient, LeaveReason, Role,
    RoomCloseReason, SuspiciousActivityType, VerificationStatus,
};
use crate::substrate::{address_text, Address};
use crate::text::{clone_strings, decimal_string, opt_str, opt_view, spec_decimal, text_views};
use vstd::prelude::*;
use vstd::string::*;

verus! {

/// The least time, in milliseconds, between two submissions under one dependency key.
pub const TX_DELAY_MS: u64 = 3000;

/// An event of a room's life that goes to the ledger. Participants are named by their wallets.
#[derive(Debug, Clone, PartialEq, Eq)]
#[allow(inconsistent_fields)]
pub enum ChainEvent {
    RoomCreated { room_id: String, proctor: Address, proctor_name: Option<String> },
    ParticipantJoined { room_id: String, participant: Address, name: Option<String>, role: Role },
    ParticipantLeft { room_id: String, participant: Address, reason: LeaveReason },
    ParticipantKicked { room_id: String, proctor: Address, kicked: Address, reason: Option<String> },
    IdVerification {
        room_id: String,
        participant: Address,
        status: VerificationStatus,
        verified_by: String,
    },
    SuspiciousActivity {
        room_id: String,
        participant: Address,
        activity_type: SuspiciousActivityType,
        details: Option<String>,
    },
    RecordingStarted { room_id: String, participant: Address },
    RecordingStopped {
        room_id: String,
        participant: Address,
        duration_secs: u64,
        ipfs_cid: Option<String>,
    },
    RoomClosed { room_id: String, reason: RoomCloseReason },
    CreateExamResult { room_id: String, participant: Address, grade: u64, exam_name: String },
    AddRecordingToResult { result_id: u64, ipfs_cid: String },
    AddRecordingsToResult { result_id: u64, ipfs_cids: Vec<String> },
    UpdateExamResultGrade { result_id: u64, new_grade: u64 },
    MarkNftMinted { result_id: u64 },
}

/// An event as the contracts see it.
#[allow(inconsistent_fields)]
pub enum ChainEventView {
    RoomCreated { room_id: Seq<char>, proctor: Seq<u8>, proctor_name: Option<Seq<char>> },
    ParticipantJoined {
        room_id: Seq<char>,
        participant: Seq<u8>,
        name: Option<Seq<char>>,
        role: Role,
    },
    ParticipantLeft { room_id: Seq<char>, participant: Seq<u8>, reason: LeaveReason },
    ParticipantKicked {
        room_id: Seq<char>,
        proctor: Seq<u8>,
        kicked: Seq<u8>,
        reason: Option<Seq<char>>,
    },
    IdVerification {
        room_id: Seq<char>,
        participant: Seq<u8>,
        status: VerificationStatus,
        verified_by: Seq<char>,
    },
    SuspiciousActivity {
        room_id: Seq<char>,
        participant: Seq<u8>,
        activity_type: SuspiciousActivityType,
        details: Option<Seq<char>>,
    },
    RecordingStarted { room_id: Seq<char>, participant: Seq<u8> },
    RecordingStopped {
        room_id: Seq<char>,
        participant: Seq<u8>,
        duration_secs: u64,
        ipfs_cid: Option<Seq<char>>,
    },
    RoomClosed { room_id: Seq<char>, reason: RoomCloseReason },
    CreateExamResult { room_id: Seq<char>, participant: Seq<u8>, grade: u64, exam_name: Seq<char> },
    AddRecordingToResult { result_id: u64, ipfs_cid: Seq<char> },
    AddRecordingsToResult { result_id: u64, ipfs_cids: Seq<Seq<char>> },
    UpdateExamResultGrade { result_id: u64, new_grade: u64 },
    MarkNftMinted { result_id: u64 },
}

impl View for ChainEvent {
    type V = ChainEventView;

    open spec fn view(&self) -> ChainEventView {
        match *self {
            ChainEvent::RoomCreated { room_id, proctor, proctor_name } => ChainEventView::RoomCreated {
                room_id: room_id@,
                proctor: proctor@,
                proctor_name: opt_view(proctor_name),
            },
            ChainEvent::ParticipantJoined {
                room_id,
                participant,
                name,
                role,
            } => ChainEventView::ParticipantJoined {
                room_id: room_id@,
                participant: participant@,
                name: opt_view(name),
                role,
            },
            ChainEvent::ParticipantLeft {
                room_id,
                participant,
                reason,
            } => ChainEventView::ParticipantLeft {
                room_id: room_id@,
                participant: participant@,
                reason,
            },
            ChainEvent::ParticipantKicked {
                room_id,
                proctor,
                kicked,
                reason,
            } => ChainEventView::ParticipantKicked {
                room_id: room_id@,
                proctor: proctor@,
                kicked: kicked@,
                reason: opt_view(reason),
            },
            ChainEvent::IdVerification {
                room_id,
                participant,
                status,
                verified_by,
            } => ChainEventView::IdVerification {
                room_id: room_id@,
                participant: participant@,
                status,
                verified_by: verified_by@,
            },
            ChainEvent::SuspiciousActivity {
                room_id,
                participant,
                activity_type,
                details,
            } => ChainEventView::SuspiciousActivity {
                room_id: room_id@,
                participant: participant@,
                activity_type,
                details: opt_view(details),
            },
            ChainEvent::RecordingStarted { room_id, participant } => ChainEventView::RecordingStarted {
                room_id: room_id@,
                participant: participant@,
            },
            ChainEvent::RecordingStopped {
                room_id,
                participant,
                duration_secs,
                ipfs_cid,
            } => ChainEventView::RecordingStopped {
                room_id: room_id@,
                participant: participant@,
                duration_secs,
                ipfs_cid: opt_view(ipfs_cid),
            },
            ChainEvent::RoomClosed { room_id, reason } => ChainEventView::RoomClosed {
                room_id: room_id@,
                reason,
            },
            ChainEvent::CreateExamResult {
                room_id,
                participant,
                grade,
                exam_name,
            } => ChainEventView::CreateExamResult {
                room_id: room_id@,
                participant: participant@,
                grade,
                exam_name: exam_name@,
            },
            ChainEvent::AddRecordingToResult {
                result_id,
                ipfs_cid,
            } => ChainEventView::AddRecordingToResult { result_id, ipfs_cid: ipfs_cid@ },
            ChainEvent::AddRecordingsToResult {
                result_id,
                ipfs_cids,
            } => ChainEventView::AddRecordingsToResult {
                result_id,
                ipfs_cids: text_views(ipfs_cids@),
            },
            ChainEvent::UpdateExamResultGrade {
                result_id,
                new_grade,
            } => ChainEventView::UpdateExamResultGrade { result_id, new_grade },
            ChainEvent::MarkNftMinted { result_id } => ChainEventView::MarkNftMinted { result_id },
        }
    }
}

/// The key of the events of one room.
pub open spec fn room_key(room_id: Seq<char>) -> Seq<char> {
    "room:"@ + room_id
}

/// The key of the events of one participant of one room.
pub open spec fn participant_key(room_id: Seq<char>, participant: Seq<u8>) -> Seq<char> {
    "room:"@ + room_id + ":participant:"@ + address_text(participant)
}

/// The key of the events of one exam result.
pub open spec fn result_key(result_id: u64) -> Seq<char> {
    "result:"@ + spec_decimal(result_id as nat)
}

impl ChainEventView {
    /// The key under which an event is put in line: that of its room for the events of a room
    /// as a whole, that of its participant in the room for the events of a participant (of a
    /// kick, the one who was kicked), that of its result for the events of an exam result.
    pub open spec fn dependency_key(self) -> Seq<char> {
        match self {
            ChainEventView::RoomCreated { room_id, .. } => room_key(room_id),
            ChainEventView::RoomClosed { room_id, .. } => room_key(room_id),
            ChainEventView::ParticipantJoined {
                room_id,
                participant,
                ..
            } => participant_key(room_id, participant),
            ChainEventView::ParticipantLeft {
                room_id,
                participant,
                ..
            } => participant_key(room_id, participant),
            ChainEventView::ParticipantKicked { room_id, kicked, .. } => participant_key(
                room_id,
                kicked,
            ),
            ChainEventView::IdVerification {
                room_id,
                participant,
                ..
            } => participant_key(room_id, participant),
            ChainEventView::SuspiciousActivity {
                room_id,
                participant,
                ..
            } => participant_key(room_id, participant),
            ChainEventView::RecordingStarted {
                room_id,
                participant,
            } => participant_key(room_id, participant),
            ChainEventView::RecordingStopped {
                room_id,
                participant,
                ..
            } => participant_key(room_id, participant),
            ChainEventView::CreateExamResult {
                room_id,
                participant,
                ..
            } => participant_key(room_id, participant),
            ChainEventView::AddRecordingToResult { result_id, .. } => result_key(result_id),
            ChainEventView::AddRecordingsToResult { result_id, .. } => result_key(result_id),
            ChainEventView::UpdateExamResultGrade { result_id, .. } => result_key(result_id),
            ChainEventView::MarkNftMinted { result_id } => result_key(result_id),
        }
    }

    /// The room whose creation must be on the ledger before this event goes there: the room
    /// of every event that names one, but for the creation itself.
    pub open spec fn room_dependency(self) -> Option<Seq<char>> {
        match self {
            ChainEventView::RoomCreated { .. } => None,
            ChainEventView::ParticipantJoined { room_id, .. } => Some(room_id),
            ChainEventView::ParticipantLeft { room_id, .. } => Some(room_id),
            ChainEventView::ParticipantKicked { room_id, .. } => Some(room_id),
            ChainEventView::IdVerification { room_id, .. } => Some(room_id),
            ChainEventView::SuspiciousActivity { room_id, .. } => Some(room_id),
            ChainEventView::RecordingStarted { room_id, .. } => Some(room_id),
            ChainEventView::RecordingStopped { room_id, .. } => Some(room_id),
            ChainEventView::RoomClosed { room_id, .. } => Some(room_id),
            ChainEventView::CreateExamResult { room_id, .. } => Some(room_id),
            ChainEventView::AddRecordingToResult { .. } => None,
            ChainEventView::AddRecordingsToResult { .. } => None,
            ChainEventView::UpdateExamResultGrade { .. } => None,
            ChainEventView::MarkNftMinted { .. } => None,
        }
    }
}

fn room_key_string(room_id: &String) -> (k: String)
    ensures
        k@ == room_key(room_id@),
{
    let mut k = String::from_str("room:");
    k.append(room_id.as_str());
    k
}

fn participant_key_string(room_id: &String, participant: &Address) -> (k: String)
    ensures
        k@ == participant_key(room_id@, participant@),
{
    let mut k = String::from_str("room:");
    k.append(room_id.as_str());
    k.append(":participant:");
    let hex = participant.to_hex();
    k.append(hex.as_str());
    k
}

fn result_key_string(result_id: u64) -> (k: String)
    ensures
        k@ == result_key(result_id),
{
    let mut k = String::from_str("result:");
    let n = decimal_string(result_id);
    k.append(n.as_str());
    k
}

impl ChainEvent {
    /// The key under which the event is put in line. Every event has one.
    pub fn dependency_key(&self) -> (key: Option<String>)
        ensures
            match key {
                Some(k) => k@ == self@.dependency_key(),
                None => false,
            },
    {
        match self {
            ChainEvent::RoomCreated { room_id, .. } => Some(room_key_string(room_id)),
            ChainEvent::RoomClosed { room_id, .. } => Some(room_key_string(room_id)),
            ChainEvent::ParticipantJoined { room_id, participant, .. } => Some(
                participant_key_string(room_id, participant),
            ),
            ChainEvent::ParticipantLeft { room_id, participant, .. } => Some(
                participant_key_string(room_id, participant),
            ),
            ChainEvent::ParticipantKicked { room_id, kicked, .. } => Some(
                participant_key_string(room_id, kicked),
            ),
            ChainEvent::IdVerification { room_id, participant, .. } => Some(
                participant_key_string(room_id, participant),
            ),
            ChainEvent::SuspiciousActivity { room_id, participant, .. } => Some(
                participant_key_string(room_id, participant),
            ),
            ChainEvent::RecordingStarted { room_id, participant } => Some(
                participant_key_string(room_id, participant),
            ),
            ChainEvent::RecordingStopped { room_id, participant, .. } => Some(
                participant_key_string(room_id, participant),
            ),
            ChainEvent::CreateExamResult { room_id, participant, .. } => Some(
                participant_key_string(room_id, participant),
            ),
            ChainEvent::AddRecordingToResult { result_id, .. } => Some(
                result_key_string(*result_id),
            ),
            ChainEvent::AddRecordingsToResult { result_id, .. } => Some(
                result_key_string(*result_id),
            ),
            ChainEvent::UpdateExamResultGrade { result_id, .. } => Some(
                result_key_string(*result_id),
            ),
            ChainEvent::MarkNftMinted { result_id } => Some(result_key_string(*result_id)),
        }
    }

    /// The room whose creation must be on the ledger before this event goes there.
    pub fn room_dependency(&self) -> (room: Option<&str>)
        ensures
            match room {
                Some(r) => self@.room_dependency() == Some(r@),
                None => self@.room_dependency() is None,
            },
    {
        match self {
            ChainEvent::RoomCreated { .. } => None,
            ChainEvent::ParticipantJoined { room_id, .. } => Some(room_id.as_str()),
            ChainEvent::ParticipantLeft { room_id, .. } => Some(room_id.as_str()),
            ChainEvent::ParticipantKicked { room_id, .. } => Some(room_id.as_str()),
            ChainEvent::IdVerification { room_id, .. } => Some(room_id.as_str()),
            ChainEvent::SuspiciousActivity { room_id, .. } => Some(room_id.as_str()),
            ChainEvent::RecordingStarted { room_id, .. } => Some(room_id.as_str()),
            ChainEvent::RecordingStopped { room_id, .. } => Some(room_id.as_str()),
            ChainEvent::RoomClosed { room_id, .. } => Some(room_id.as_str()),
            ChainEvent::CreateExamResult { room_id, .. } => Some(room_id.as_str()),
            ChainEvent::AddRecordingToResult { .. } => None,
            ChainEvent::AddRecordingsToResult { .. } => None,
            ChainEvent::UpdateExamResultGrade { .. } => None,
            ChainEvent::MarkNftMinted { .. } => None,
        }
    }
}

/// When each dependency key last had a submission complete, and which rooms are on the ledger.
pub struct TransactionTracker {
    /// For each dependency key the time, in milliseconds, at which its last submission ended.
    pub last_tx_times: StrMap<u64>,
    /// For each room whether its creation has been submitted.
    pub room_created: StrMap<bool>,
}

/// The time that has passed since `last`; none if the clock stands before it.
pub open spec fn elapsed_ms(last: u64, now: u64) -> u64 {
    if now >= last {
        (now - last) as u64
    } else {
        0
    }
}

impl TransactionTracker {
    /// Both tables of the tracker are well formed.
    pub open spec fn wf(&self) -> bool {
        self.last_tx_times@.wf() && self.room_created@.wf()
    }

    /// Whether the creation of the room that the event depends on has been submitted.
    pub open spec fn room_is_ready(&self, event: ChainEventView) -> bool {
        match event.room_dependency() {
            Some(room_id) => self.room_created@.has(room_id) && self.room_created@.value(room_id),
            None => true,
        }
    }

    /// How long an event has to wait at the time `now`: the whole delay while its room is not
    /// on the ledger; else what is left of the delay since the last submission under its key;
    /// else nothing.
    pub open spec fn spec_needs_delay(&self, event: ChainEventView, now: u64) -> Option<u64> {
        let key = event.dependency_key();
        if !self.room_is_ready(event) {
            Some(TX_DELAY_MS)
        } else if self.last_tx_times@.has(key) && elapsed_ms(self.last_tx_times@.value(key), now)
            < TX_DELAY_MS {
            Some((TX_DELAY_MS - elapsed_ms(self.last_tx_times@.value(key), now)) as u64)
        } else {
            None
        }
    }

    /// A tracker that has seen nothing.
    pub fn new() -> (t: TransactionTracker)
        ensures
            t.wf(),
            t.last_tx_times@.entries.len() == 0,
            t.room_created@.entries.len() == 0,
    {
        TransactionTracker { last_tx_times: StrMap::new(), room_created: StrMap::new() }
    }

    /// How long the event has to wait at the time `now_ms` before it is submitted.
    pub fn needs_delay(&self, event: &ChainEvent, now_ms: u64) -> (delay: Option<u64>)
        requires
            self.wf(),
        ensures
            delay == self.spec_needs_delay(event@, now_ms),
    {
        match event.room_dependency() {
            Some(room_id) => {
                let ready = match self.room_created.get(room_id) {
                    Some(done) => *done,
                    None => false,
                };
                if !ready {
                    return Some(TX_DELAY_MS);
                }
            },
            None => {},
        }
        match event.dependency_key() {
            Some(key) => {
                match self.last_tx_times.get(key.as_str()) {
                    Some(last) => {
                        let elapsed = if now_ms >= *last {
                            now_ms - *last
                        } else {
                            0
                        };
                        if elapsed < TX_DELAY_MS {
                            return Some(TX_DELAY_MS - elapsed);
                        }
                    },
                    None => {},
                }
            },
            None => {},
        }
        None
    }

    /// Notes that the submission of the event ended at the time `now_ms`, whether it succeeded
    /// or not: the creation of a room counts as done, and the event's key has a new last time.
    pub fn record_completion(&mut self, event: &ChainEvent, now_ms: u64)
        requires
            old(self).wf(),
        ensures
            final(self).wf(),
            final(self).last_tx_times@ == old(self).last_tx_times@.put(
                event@.dependency_key(),
                now_ms,
            ),
            final(self).room_created@ == match event@ {
                ChainEventView::RoomCreated { room_id, .. } => old(self).room_created@.put(
                    room_id,
                    true,
                ),
                _ => old(self).room_created@,
            },
    {
        match event {
            ChainEvent::RoomCreated { room_id, .. } => {
                self.room_created.insert(room_id.clone(), true);
            },
            _ => {},
        }
        match event.dependency_key() {
            Some(key) => {
                self.last_tx_times.insert(key, now_ms);
            },
            None => {},
        }
    }
}

/// An event that is let through at the time `now` has its room on the ledger, and the last
/// submission under its key ended at least the whole delay before. An event that is told to
/// wait and is submitted after that wait keeps the same distance, if its room was ready.
pub proof fn lemma_delay_keeps_spacing(tracker: TransactionTracker, event: ChainEventView, now: u64)
    ensures
        tracker.spec_needs_delay(event, now) is None ==> tracker.room_is_ready(event) && (
        tracker.last_tx_times@.has(event.dependency_key()) ==> elapsed_ms(
            tracker.last_tx_times@.value(event.dependency_key()),
            now,
        ) >= TX_DELAY_MS),
        tracker.room_is_ready(event) && tracker.last_tx_times@.has(event.dependency_key())
            && now >= tracker.last_tx_times@.value(event.dependency_key()) ==> match tracker.spec_needs_delay(
            event,
            now,
        ) {
            Some(delay) => now + delay - tracker.last_tx_times@.value(event.dependency_key())
                == TX_DELAY_MS,
            None => true,
        },
{
}

/// After the creation of a room has been noted, the events of that room do not wait for it
/// any more.
pub proof fn lemma_room_ready_after_creation(
    tracker: TransactionTracker,
    after: TransactionTracker,
    room_id: Seq<char>,
    event: ChainEventView,
)
    requires
        tracker.wf(),
        after.room_created@ == tracker.room_created@.put(room_id, true),
        event.room_dependency() == Some(room_id),
    ensures
        after.room_is_ready(event),
{
    lemma_strmap_put(tracker.room_created@, room_id, true);
}

/// The call of the contract that records an event.
pub open spec fn spec_call_of(event: ChainEventView) -> ContractCallView {
    match event {
        ChainEventView::RoomCreated {
            room_id,
            proctor,
            proctor_name,
        } => ContractCallView::RecordRoomCreated {
            room_id,
            proctor,
            proctor_name: text_or_empty(proctor_name),
        },
        ChainEventView::ParticipantJoined {
            room_id,
            participant,
            name,
            role,
        } => ContractCallView::RecordParticipantJoined {
            room_id,
            participant,
            name: text_or_empty(name),
            role: role_code(role),
        },
        ChainEventView::ParticipantLeft {
            room_id,
            participant,
            reason,
        } => ContractCallView::RecordParticipantLeft {
            room_id,
            participant,
            reason: leave_reason_code(reason),
        },
        ChainEventView::ParticipantKicked {
            room_id,
            proctor,
            kicked,
            reason,
        } => ContractCallView::RecordParticipantKicked {
            room_id,
            proctor,
            kicked,
            reason: text_or_empty(reason),
        },
        ChainEventView::IdVerification {
            room_id,
            participant,
            status,
            verified_by,
        } => ContractCallView::RecordIdVerification {
            room_id,
            participant,
            status: verification_status_code(status),
            verified_by,
        },
        ChainEventView::SuspiciousActivity {
            room_id,
            participant,
            activity_type,
            details,
        } => ContractCallView::RecordSuspiciousActivity {
            room_id,
            participant,
            activity_type: activity_code(activity_type),
            details: text_or_empty(details),
        },
        ChainEventView::RecordingStarted {
            room_id,
            participant,
        } => ContractCallView::RecordRecordingStarted { room_id, participant },
        ChainEventView::RecordingStopped {
            room_id,
            participant,
            duration_secs,
            ipfs_cid,
        } => ContractCallView::RecordRecordingStopped {
            room_id,
            participant,
            duration_secs,
            ipfs_cid: text_or_empty(ipfs_cid),
        },
        ChainEventView::RoomClosed { room_id, reason } => ContractCallView::CloseRoom {
            room_id,
            reason: close_reason_code(reason),
        },
        ChainEventView::CreateExamResult {
            room_id,
            participant,
            grade,
            exam_name,
        } => ContractCallView::CreateExamResult { room_id, participant, grade, exam_name },
        ChainEventView::AddRecordingToResult {
            result_id,
            ipfs_cid,
        } => ContractCallView::AddRecordingToResult { result_id, ipfs_cid },
        ChainEventView::AddRecordingsToResult {
            result_id,
            ipfs_cids,
        } => ContractCallView::AddRecordingsToResult { result_id, ipfs_cids },
        ChainEventView::UpdateExamResultGrade {
            result_id,
            new_grade,
        } => ContractCallView::UpdateExamResultGrade { result_id, new_grade },
        ChainEventView::MarkNftMinted { result_id } => ContractCallView::MarkNftMinted {
            result_id,
        },
    }
}

/// What the processor does with the event at the head of the line.
pub struct Submission {
    /// The event, to be noted as complete when its submission has ended.
    pub event: ChainEvent,
    /// How long to wait before the call is made.
    pub delay_ms: Option<u64>,
    /// The call to make.
    pub call: ContractCall,
}

/// The line of events that wait for the ledger, first come first served, and the record of
/// what has been submitted.
pub struct EventQueue {
    pub pending: Vec<ChainEvent>,
    pub tracker: TransactionTracker,
}

impl EventQueue {
    /// The tracker of the line is well formed.
    pub open spec fn wf(&self) -> bool {
        self.tracker.wf()
    }

    /// An empty line.
    pub fn new() -> (q: EventQueue)
        ensures
            q.wf(),
            q.pending@.len() == 0,
    {
        EventQueue { pending: Vec::new(), tracker: TransactionTracker::new() }
    }

    /// Puts an event at the end of the line.
    pub fn emit(&mut self, event: ChainEvent)
        ensures
            final(self).pending@ == old(self).pending@.push(event),
            final(self).tracker == old(self).tracker,
    {
        self.pending.push(event);
    }

    /// The call of the contract that records an event.
    pub fn handle_event(client: &ContractClient, event: &ChainEvent) -> (call: ContractCall)
        ensures
            call@ == spec_call_of(event@),
    {
        match event {
            ChainEvent::RoomCreated {
                room_id,
                proctor,
                proctor_name,
            } => client.record_room_created(room_id.as_str(), *proctor, opt_str(proctor_name)),
            ChainEvent::ParticipantJoined {
                room_id,
                participant,
                name,
                role,
            } => client.record_participant_joined(
                room_id.as_str(),
                *participant,
                opt_str(name),
                *role,
            ),
            ChainEvent::ParticipantLeft {
                room_id,
                participant,
                reason,
            } => client.record_participant_left(room_id.as_str(), *participant, *reason),
            ChainEvent::ParticipantKicked {
                room_id,
                proctor,
                kicked,
                reason,
            } => client.record_participant_kicked(
                room_id.as_str(),
                *proctor,
                *kicked,
                opt_str(reason),
            ),
            ChainEvent::IdVerification {
                room_id,
                participant,
                status,
                verified_by,
            } => client.record_id_verification(
                room_id.as_str(),
                *participant,
                *status,
                verified_by.as_str(),
            ),
            ChainEvent::SuspiciousActivity {
                room_id,
                participant,
                activity_type,
                details,
            } => client.record_suspicious_activity(
                room_id.as_str(),
                *participant,
                *activity_type,
                opt_str(details),
            ),
            ChainEvent::RecordingStarted {
                room_id,
                participant,
            } => client.record_recording_started(room_id.as_str(), *participant),
            ChainEvent::RecordingStopped {
                room_id,
                participant,
                duration_secs,
                ipfs_cid,
            } => client.record_recording_stopped(
                room_id.as_str(),
                *participant,
                *duration_secs,
                opt_str(ipfs_cid),
            ),
            ChainEvent::RoomClosed { room_id, reason } => client.close_room(
                room_id.as_str(),
                *reason,
            ),
            ChainEvent::CreateExamResult {
                room_id,
                participant,
                grade,
                exam_name,
            } => client.create_exam_result(
                room_id.as_str(),
                *participant,
                *grade,
                exam_name.as_str(),
            ),
            ChainEvent::AddRecordingToResult {
                result_id,
                ipfs_cid,
            } => client.add_recording_to_result(*result_id, ipfs_cid.as_str()),
            ChainEvent::AddRecordingsToResult {
                result_id,
                ipfs_cids,
            } => client.add_recordings_to_result(*result_id, clone_strings(ipfs_cids)),
            ChainEvent::UpdateExamResultGrade {
                result_id,
                new_grade,
            } => client.update_exam_result_grade(*result_id, *new_grade),
            ChainEvent::MarkNftMinted { result_id } => client.mark_nft_minted(*result_id),
        }
    }

    /// Takes the event at the head of the line and says how long it waits and which call
    /// records it. Nothing comes from an empty line.
    pub fn process_events(&mut self, client: &ContractClient, now_ms: u64) -> (next: Option<
        Submission,
    >)
        requires
            old(self).wf(),
        ensures
            final(self).wf(),
            final(self).tracker == old(self).tracker,
            match next {
                Some(s) => {
                    &&& old(self).pending@.len() > 0
                    &&& s.event == old(self).pending@[0]
                    &&& final(self).pending@ == old(self).pending@.skip(1)
                    &&& s.delay_ms == old(self).tracker.spec_needs_delay(s.event@, now_ms)
                    &&& s.call@ == spec_call_of(s.event@)
                },
                None => old(self).pending@.len() == 0 && final(self).pending@
                    == old(self).pending@,
            },
    {
        if self.pending.len() == 0 {
            return None;
        }
        let ghost before = self.pending@;
        let event = self.pending.remove(0);
        assert(self.pending@ =~= before.skip(1));
        let delay_ms = self.tracker.needs_delay(&event, now_ms);
        let call = EventQueue::handle_event(client, &event);
        Some(Submission { event, delay_ms, call })
    }

    /// Notes that the submission of an event has ended, whether it succeeded or not, so that
    /// nothing that depends on it waits for ever.
    pub fn record_completion(&mut self, event: &ChainEvent, now_ms: u64)
        requires
            old(self).wf(),
        ensures
            final(self).wf(),
            final(self).pending == old(self).pending,
            final(self).tracker.last_tx_times@ == old(self).tracker.last_tx_times@.put(
                event@.dependency_key(),
                now_ms,
            ),
            final(self).tracker.room_created@ == match event@ {
                ChainEventView::RoomCreated { room_id, .. } => old(self).tracker.room_created@.put(
                    room_id,
                    true,
                ),
                _ => old(self).tracker.room_created@,
            },
    {
        self.tracker.record_completion(event, now_ms);
    }
}

} // verus!
