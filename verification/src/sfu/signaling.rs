use crate::error::{message_of, ErrorKind, SfuError};
use crate::sfu::room::PeerRole;
use crate::sfu::server::{
    action_views, answer_sdp_failure, grade_basis_points, spec_grade_basis_points, ExamGrade,
    IceCandidateView, PendingStudent, ServerAction, ServerActionView, ServerView, SfuServer,
};
use crate::substrate::client::{SuspiciousActivityType, VerificationStatus};
use crate::substrate::queue::{ChainEvent, ChainEventView};
use crate::substrate::{parse_address, spec_parse_address, Address};
use crate::text::{clone_opt_string, opt_view, str_eq, text_views};
use vstd::string::*;
use vstd::prelude::*;

verus! {

/// Where the recording of one peer ended up.
#[derive(Debug, Clone, PartialEq, Eq)]
pub struct RecordingInfo {
    pub peer_id: String,
    pub file_path: Option<String>,
    pub cid: Option<String>,
    pub ipfs_gateway_url: Option<String>,
}

/// The whereabouts of a recording as the contracts see them.
pub struct RecordingInfoView {
    pub peer_id: Seq<char>,
    pub file_path: Option<Seq<char>>,
    pub cid: Option<Seq<char>>,
    pub ipfs_gateway_url: Option<Seq<char>>,
}

impl View for RecordingInfo {
    type V = RecordingInfoView;

    open spec fn view(&self) -> RecordingInfoView {
        RecordingInfoView {
            peer_id: self.peer_id@,
            file_path: opt_view(self.file_path),
            cid: opt_view(self.cid),
            ipfs_gateway_url: opt_view(self.ipfs_gateway_url),
        }
    }
}

/// The whereabouts of the recordings of a list as the contracts see them.
pub open spec fn recording_info_views(s: Seq<RecordingInfo>) -> Seq<RecordingInfoView> {
    s.map_values(|r: RecordingInfo| r@)
}

/// An envelope of the signaling protocol.
#[derive(Debug, Clone, PartialEq, Eq)]
#[allow(inconsistent_fields)]
pub enum SfuMessage {
    /// A proctor asks for a new room.
    CreateRoom {
        peer_id: String,
        name: Option<String>,
        wallet: Option<String>,
    },
    /// The room has been made.
    RoomCreated {
        room_id: String,
    },
    /// A student asks the proctor for admission; the server hands the request on to the proctor.
    JoinRequest {
        room_id: String,
        peer_id: String,
        name: Option<String>,
        role: String,
        wallet: Option<String>,
    },
    /// The proctor's answer to a request for admission.
    JoinResponse {
        room_id: String,
        peer_id: String,
        approved: bool,
        requester_peer_id: String,
    },
    /// A peer joins a room.
    Join {
        room_id: String,
        peer_id: String,
        name: Option<String>,
        role: String,
        wallet: Option<String>,
    },
    /// A peer leaves.
    Leave {
        peer_id: String,
    },
    /// The server's first offer, signed with the server's name.
    Offer {
        sdp: String,
        peer_id: String,
    },
    /// A peer's answer to an offer.
    Answer {
        peer_id: String,
        sdp: String,
    },
    /// An ICE candidate, from a peer or from the server.
    IceCandidate {
        peer_id: String,
        candidate: String,
        sdp_mid: Option<String>,
        sdp_mline_index: Option<u16>,
    },
    /// A later offer of the server, after tracks were added.
    Renegotiate {
        sdp: String,
    },
    /// A peer's media is running.
    MediaReady {
        peer_id: String,
        has_video: bool,
        has_audio: bool,
    },
    /// Asks to record a peer.
    StartRecording {
        room_id: String,
        peer_id: String,
    },
    /// Asks to end the recording of a peer.
    StopRecording {
        room_id: String,
        peer_id: String,
    },
    /// Asks to end every recording of a room.
    StopAllRecordings {
        room_id: String,
    },
    /// The recording of a peer has begun.
    RecordingStarted {
        room_id: String,
        peer_id: String,
    },
    /// The recording of a peer has ended, and where it ended up.
    RecordingStopped {
        room_id: String,
        peer_id: String,
        file_path: Option<String>,
        cid: Option<String>,
        ipfs_gateway_url: Option<String>,
    },
    /// Every recording of a room has ended, and where each ended up.
    AllRecordingsStopped {
        room_id: String,
        recordings: Vec<RecordingInfo>,
    },
    /// A request about a recording failed.
    RecordingError {
        room_id: String,
        peer_id: Option<String>,
        error: String,
    },
    /// Asks which peers of a room are recorded.
    GetRecordingStatus {
        room_id: String,
    },
    /// The peers of a room that are recorded.
    RecordingStatus {
        room_id: String,
        recording_peers: Vec<String>,
    },
    /// The proctor removes a participant.
    KickParticipant {
        room_id: String,
        peer_id: String,
        reason: Option<String>,
    },
    /// Tells a participant that the proctor removed them.
    ParticipantKicked {
        room_id: String,
        peer_id: String,
        reason: Option<String>,
    },
    /// Tells the proctor that a participant left.
    ParticipantLeft {
        room_id: String,
        peer_id: String,
        name: Option<String>,
    },
    /// The proctor asks a participant to show an identity document.
    StartIdVerification {
        room_id: String,
        peer_id: String,
    },
    /// The proctor's verdict on a participant's identity.
    IdVerificationResult {
        room_id: String,
        peer_id: String,
        status: String,
    },
    /// Tells a participant the verdict on their identity.
    IdVerificationStatus {
        status: String,
    },
    /// Reports suspicious activity of a peer.
    ReportSuspiciousActivity {
        room_id: String,
        peer_id: String,
        activity_type: String,
        details: Option<String>,
    },
    /// The report of suspicious activity came in.
    SuspiciousActivityReported,
    /// Submits the score of a peer in an exam.
    SubmitExamResult {
        room_id: String,
        peer_id: String,
        score: u32,
        total: u32,
        exam_name: Option<String>,
    },
    /// The grade, in basis points, that the server computed.
    ExamResultSubmitted {
        grade: u64,
    },
    /// The peer has joined.
    JoinSuccess {
        message: String,
    },
    /// The request for admission went to the proctor.
    JoinRequestSent {
        message: String,
    },
    /// The proctor admits the student.
    JoinApproved {
        room_id: String,
        message: String,
    },
    /// The proctor does not admit the student.
    JoinDenied {
        room_id: String,
        message: String,
    },
    /// A failure, in a few words for the user.
    Error {
        message: String,
    },
}

/// An envelope as the contracts see it.
#[allow(inconsistent_fields)]
pub enum SfuMessageView {
    CreateRoom {
        peer_id: Seq<char>,
        name: Option<Seq<char>>,
        wallet: Option<Seq<char>>,
    },
    RoomCreated {
        room_id: Seq<char>,
    },
    JoinRequest {
        room_id: Seq<char>,
        peer_id: Seq<char>,
        name: Option<Seq<char>>,
        role: Seq<char>,
        wallet: Option<Seq<char>>,
    },
    JoinResponse {
        room_id: Seq<char>,
        peer_id: Seq<char>,
        approved: bool,
        requester_peer_id: Seq<char>,
    },
    Join {
        room_id: Seq<char>,
        peer_id: Seq<char>,
        name: Option<Seq<char>>,
        role: Seq<char>,
        wallet: Option<Seq<char>>,
    },
    Leave {
        peer_id: Seq<char>,
    },
    Offer {
        sdp: Seq<char>,
        peer_id: Seq<char>,
    },
    Answer {
        peer_id: Seq<char>,
        sdp: Seq<char>,
    },
    IceCandidate {
        peer_id: Seq<char>,
        candidate: Seq<char>,
        sdp_mid: Option<Seq<char>>,
        sdp_mline_index: Option<u16>,
    },
    Renegotiate {
        sdp: Seq<char>,
    },
    MediaReady {
        peer_id: Seq<char>,
        has_video: bool,
        has_audio: bool,
    },
    StartRecording {
        room_id: Seq<char>,
        peer_id: Seq<char>,
    },
    StopRecording {
        room_id: Seq<char>,
        peer_id: Seq<char>,
    },
    StopAllRecordings {
        room_id: Seq<char>,
    },
    RecordingStarted {
        room_id: Seq<char>,
        peer_id: Seq<char>,
    },
    RecordingStopped {
        room_id: Seq<char>,
        peer_id: Seq<char>,
        file_path: Option<Seq<char>>,
        cid: Option<Seq<char>>,
        ipfs_gateway_url: Option<Seq<char>>,
    },
    AllRecordingsStopped {
        room_id: Seq<char>,
        recordings: Seq<RecordingInfoView>,
    },
    RecordingError {
        room_id: Seq<char>,
        peer_id: Option<Seq<char>>,
        error: Seq<char>,
    },
    GetRecordingStatus {
        room_id: Seq<char>,
    },
    RecordingStatus {
        room_id: Seq<char>,
        recording_peers: Seq<Seq<char>>,
    },
    KickParticipant {
        room_id: Seq<char>,
        peer_id: Seq<char>,
        reason: Option<Seq<char>>,
    },
    ParticipantKicked {
        room_id: Seq<char>,
        peer_id: Seq<char>,
        reason: Option<Seq<char>>,
    },
    ParticipantLeft {
        room_id: Seq<char>,
        peer_id: Seq<char>,
        name: Option<Seq<char>>,
    },
    StartIdVerification {
        room_id: Seq<char>,
        peer_id: Seq<char>,
    },
    IdVerificationResult {
        room_id: Seq<char>,
        peer_id: Seq<char>,
        status: Seq<char>,
    },
    IdVerificationStatus {
        status: Seq<char>,
    },
    ReportSuspiciousActivity {
        room_id: Seq<char>,
        peer_id: Seq<char>,
        activity_type: Seq<char>,
        details: Option<Seq<char>>,
    },
    SuspiciousActivityReported,
    SubmitExamResult {
        room_id: Seq<char>,
        peer_id: Seq<char>,
        score: u32,
        total: u32,
        exam_name: Option<Seq<char>>,
    },
    ExamResultSubmitted {
        grade: u64,
    },
    JoinSuccess {
        message: Seq<char>,
    },
    JoinRequestSent {
        message: Seq<char>,
    },
    JoinApproved {
        room_id: Seq<char>,
        message: Seq<char>,
    },
    JoinDenied {
        room_id: Seq<char>,
        message: Seq<char>,
    },
    Error {
        message: Seq<char>,
    },
}

impl View for SfuMessage {
    type V = SfuMessageView;

    open spec fn view(&self) -> SfuMessageView {
        match *self {
            SfuMessage::CreateRoom {
                peer_id,
                name,
                wallet,
            } => SfuMessageView::CreateRoom {
                peer_id: peer_id@,
                name: opt_view(name),
                wallet: opt_view(wallet),
            },
            SfuMessage::RoomCreated { room_id } => SfuMessageView::RoomCreated {
                room_id: room_id@,
            },
            SfuMessage::JoinRequest {
                room_id,
                peer_id,
                name,
                role,
                wallet,
            } => SfuMessageView::JoinRequest {
                room_id: room_id@,
                peer_id: peer_id@,
                name: opt_view(name),
                role: role@,
                wallet: opt_view(wallet),
            },
            SfuMessage::JoinResponse {
                room_id,
                peer_id,
                approved,
                requester_peer_id,
            } => SfuMessageView::JoinResponse {
                room_id: room_id@,
                peer_id: peer_id@,
                approved,
                requester_peer_id: requester_peer_id@,
            },
            SfuMessage::Join {
                room_id,
                peer_id,
                name,
                role,
                wallet,
            } => SfuMessageView::Join {
                room_id: room_id@,
                peer_id: peer_id@,
                name: opt_view(name),
                role: role@,
                wallet: opt_view(wallet),
            },
            SfuMessage::Leave { peer_id } => SfuMessageView::Leave {
                peer_id: peer_id@,
            },
            SfuMessage::Offer { sdp, peer_id } => SfuMessageView::Offer {
                sdp: sdp@,
                peer_id: peer_id@,
            },
            SfuMessage::Answer { peer_id, sdp } => SfuMessageView::Answer {
                peer_id: peer_id@,
                sdp: sdp@,
            },
            SfuMessage::IceCandidate {
                peer_id,
                candidate,
                sdp_mid,
                sdp_mline_index,
            } => SfuMessageView::IceCandidate {
                peer_id: peer_id@,
                candidate: candidate@,
                sdp_mid: opt_view(sdp_mid),
                sdp_mline_index,
            },
            SfuMessage::Renegotiate { sdp } => SfuMessageView::Renegotiate {
                sdp: sdp@,
            },
            SfuMessage::MediaReady {
                peer_id,
                has_video,
                has_audio,
            } => SfuMessageView::MediaReady {
                peer_id: peer_id@,
                has_video,
                has_audio,
            },
            SfuMessage::StartRecording { room_id, peer_id } => SfuMessageView::StartRecording {
                room_id: room_id@,
                peer_id: peer_id@,
            },
            SfuMessage::StopRecording { room_id, peer_id } => SfuMessageView::StopRecording {
                room_id: room_id@,
                peer_id: peer_id@,
            },
            SfuMessage::StopAllRecordings { room_id } => SfuMessageView::StopAllRecordings {
                room_id: room_id@,
            },
            SfuMessage::RecordingStarted { room_id, peer_id } => SfuMessageView::RecordingStarted {
                room_id: room_id@,
                peer_id: peer_id@,
            },
            SfuMessage::RecordingStopped {
                room_id,
                peer_id,
                file_path,
                cid,
                ipfs_gateway_url,
            } => SfuMessageView::RecordingStopped {
                room_id: room_id@,
                peer_id: peer_id@,
                file_path: opt_view(file_path),
                cid: opt_view(cid),
                ipfs_gateway_url: opt_view(ipfs_gateway_url),
            },
            SfuMessage::AllRecordingsStopped { room_id, recordings } => SfuMessageView::AllRecordingsStopped {
                room_id: room_id@,
                recordings: recording_info_views(recordings@),
            },
            SfuMessage::RecordingError {
                room_id,
                peer_id,
                error,
            } => SfuMessageView::RecordingError {
                room_id: room_id@,
                peer_id: opt_view(peer_id),
                error: error@,
            },
            SfuMessage::GetRecordingStatus { room_id } => SfuMessageView::GetRecordingStatus {
                room_id: room_id@,
            },
            SfuMessage::RecordingStatus { room_id, recording_peers } => SfuMessageView::RecordingStatus {
                room_id: room_id@,
                recording_peers: text_views(recording_peers@),
            },
            SfuMessage::KickParticipant {
                room_id,
                peer_id,
                reason,
            } => SfuMessageView::KickParticipant {
                room_id: room_id@,
                peer_id: peer_id@,
                reason: opt_view(reason),
            },
            SfuMessage::ParticipantKicked {
                room_id,
                peer_id,
                reason,
            } => SfuMessageView::ParticipantKicked {
                room_id: room_id@,
                peer_id: peer_id@,
                reason: opt_view(reason),
            },
            SfuMessage::ParticipantLeft {
                room_id,
                peer_id,
                name,
            } => SfuMessageView::ParticipantLeft {
                room_id: room_id@,
                peer_id: peer_id@,
                name: opt_view(name),
            },
            SfuMessage::StartIdVerification { room_id, peer_id } => SfuMessageView::StartIdVerification {
                room_id: room_id@,
                peer_id: peer_id@,
            },
            SfuMessage::IdVerificationResult {
                room_id,
                peer_id,
                status,
            } => SfuMessageView::IdVerificationResult {
                room_id: room_id@,
                peer_id: peer_id@,
                status: status@,
            },
            SfuMessage::IdVerificationStatus { status } => SfuMessageView::IdVerificationStatus {
                status: status@,
            },
            SfuMessage::ReportSuspiciousActivity {
                room_id,
                peer_id,
                activity_type,
                details,
            } => SfuMessageView::ReportSuspiciousActivity {
                room_id: room_id@,
                peer_id: peer_id@,
                activity_type: activity_type@,
                details: opt_view(details),
            },
            SfuMessage::SuspiciousActivityReported => SfuMessageView::SuspiciousActivityReported,
            SfuMessage::SubmitExamResult {
                room_id,
                peer_id,
                score,
                total,
                exam_name,
            } => SfuMessageView::SubmitExamResult {
                room_id: room_id@,
                peer_id: peer_id@,
                score,
                total,
                exam_name: opt_view(exam_name),
            },
            SfuMessage::ExamResultSubmitted { grade } => SfuMessageView::ExamResultSubmitted {
                grade,
            },
            SfuMessage::JoinSuccess { message } => SfuMessageView::JoinSuccess {
                message: message@,
            },
            SfuMessage::JoinRequestSent { message } => SfuMessageView::JoinRequestSent {
                message: message@,
            },
            SfuMessage::JoinApproved { room_id, message } => SfuMessageView::JoinApproved {
                room_id: room_id@,
                message: message@,
            },
            SfuMessage::JoinDenied { room_id, message } => SfuMessageView::JoinDenied {
                room_id: room_id@,
                message: message@,
            },
            SfuMessage::Error { message } => SfuMessageView::Error {
                message: message@,
            },
        }
    }
}

/// The reply that reports a failure: the words of what was tried, then the error's message.
pub open spec fn error_reply(prefix: Seq<char>, kind: ErrorKind, text: Seq<char>) -> ServerActionView {
    ServerActionView::Reply {
        message: SfuMessageView::Error { message: prefix + message_of(kind, text) },
    }
}

/// Whether `wallet` is what the text of a wallet stands for: the address that it parses to,
/// and none where there is no text or the text does not parse.
pub open spec fn wallet_matches(wallet: Option<Address>, text: Option<Seq<char>>) -> bool {
    match text {
        Some(t) => match wallet {
            Some(a) => spec_parse_address(t) == Some(a@),
            None => spec_parse_address(t) is None,
        },
        None => wallet is None,
    }
}

/// The verdict that a word stands for; a word that is none of the four counts as `Invalid`.
pub open spec fn spec_parse_status(word: Seq<char>) -> VerificationStatus {
    if word == "valid"@ {
        VerificationStatus::Valid
    } else if word == "pending"@ {
        VerificationStatus::Pending
    } else if word == "skipped"@ {
        VerificationStatus::Skipped
    } else {
        VerificationStatus::Invalid
    }
}

/// The verdict that a word stands for.
pub fn parse_status(word: &str) -> (status: VerificationStatus)
    ensures
        status == spec_parse_status(word@),
{
    if str_eq(word, "valid") {
        VerificationStatus::Valid
    } else if str_eq(word, "pending") {
        VerificationStatus::Pending
    } else if str_eq(word, "skipped") {
        VerificationStatus::Skipped
    } else {
        VerificationStatus::Invalid
    }
}

/// The kind of activity that a word stands for; a word that names none counts as `Other`.
pub open spec fn spec_parse_activity(word: Seq<char>) -> SuspiciousActivityType {
    if word == "multiple_devices"@ {
        SuspiciousActivityType::MultipleDevices
    } else if word == "tab_switch"@ {
        SuspiciousActivityType::TabSwitch
    } else if word == "window_blur"@ {
        SuspiciousActivityType::WindowBlur
    } else if word == "screen_share"@ {
        SuspiciousActivityType::ScreenShare
    } else if word == "unauthorized_person"@ {
        SuspiciousActivityType::UnauthorizedPerson
    } else if word == "audio_anomaly"@ {
        SuspiciousActivityType::AudioAnomaly
    } else {
        SuspiciousActivityType::Other
    }
}

/// The kind of activity that a word stands for.
pub fn parse_activity(word: &str) -> (kind: SuspiciousActivityType)
    ensures
        kind == spec_parse_activity(word@),
{
    if str_eq(word, "multiple_devices") {
        SuspiciousActivityType::MultipleDevices
    } else if str_eq(word, "tab_switch") {
        SuspiciousActivityType::TabSwitch
    } else if str_eq(word, "window_blur") {
        SuspiciousActivityType::WindowBlur
    } else if str_eq(word, "screen_share") {
        SuspiciousActivityType::ScreenShare
    } else if str_eq(word, "unauthorized_person") {
        SuspiciousActivityType::UnauthorizedPerson
    } else if str_eq(word, "audio_anomaly") {
        SuspiciousActivityType::AudioAnomaly
    } else {
        SuspiciousActivityType::Other
    }
}

fn parse_wallet(text: &Option<String>) -> (wallet: Option<Address>)
    ensures
        wallet_matches(wallet, opt_view(*text)),
{
    match text {
        Some(t) => parse_address(t.as_str()),
        None => None,
    }
}

/// The answer to a request to record a peer: that the recording has begun, or why it has
/// not.
pub fn recording_started_reply(room_id: String, peer_id: String, failure: Option<String>) -> (message:
    SfuMessage)
    ensures
        message@ == (match failure {
            None => SfuMessageView::RecordingStarted { room_id: room_id@, peer_id: peer_id@ },
            Some(words) => SfuMessageView::RecordingError {
                room_id: room_id@,
                peer_id: Some(peer_id@),
                error: words@,
            },
        }),
{
    match failure {
        None => SfuMessage::RecordingStarted { room_id, peer_id },
        Some(words) => SfuMessage::RecordingError { room_id, peer_id: Some(peer_id), error: words },
    }
}

/// The answer to a request to end the recording of a peer: where the recording ended up, or
/// why it did not end well.
pub fn recording_stopped_reply(room_id: String, outcome: Result<RecordingInfo, (String, String)>) -> (message:
    SfuMessage)
    ensures
        message@ == (match outcome {
            Ok(info) => SfuMessageView::RecordingStopped {
                room_id: room_id@,
                peer_id: info.peer_id@,
                file_path: opt_view(info.file_path),
                cid: opt_view(info.cid),
                ipfs_gateway_url: opt_view(info.ipfs_gateway_url),
            },
            Err(failed) => SfuMessageView::RecordingError {
                room_id: room_id@,
                peer_id: Some(failed.0@),
                error: failed.1@,
            },
        }),
{
    match outcome {
        Ok(info) => SfuMessage::RecordingStopped {
            room_id,
            peer_id: info.peer_id,
            file_path: info.file_path,
            cid: info.cid,
            ipfs_gateway_url: info.ipfs_gateway_url,
        },
        Err(failed) => SfuMessage::RecordingError {
            room_id,
            peer_id: Some(failed.0),
            error: failed.1,
        },
    }
}

/// The answer to a request to end every recording of a room: where each one ended up.
pub fn all_recordings_stopped_reply(room_id: String, recordings: Vec<RecordingInfo>) -> (message:
    SfuMessage)
    ensures
        message@ == (SfuMessageView::AllRecordingsStopped {
            room_id: room_id@,
            recordings: recording_info_views(recordings@),
        }),
{
    SfuMessage::AllRecordingsStopped { room_id, recordings }
}

/// The answer to the question which peers of a room are recorded.
pub fn recording_status_reply(room_id: String, recording_peers: Vec<String>) -> (message:
    SfuMessage)
    ensures
        message@ == (SfuMessageView::RecordingStatus {
            room_id: room_id@,
            recording_peers: text_views(recording_peers@),
        }),
{
    SfuMessage::RecordingStatus { room_id, recording_peers }
}

/// Where a recording ended up, for the answer to the one who asked: its file, and its content
/// identifier and gateway address if it was stored.
pub fn recording_info(peer_id: String, file_path: String, stored: Option<(String, String)>) -> (info:
    RecordingInfo)
    ensures
        info@ == (RecordingInfoView {
            peer_id: peer_id@,
            file_path: Some(file_path@),
            cid: match stored {
                Some(at) => Some(at.0@),
                None => None,
            },
            ipfs_gateway_url: match stored {
                Some(at) => Some(at.1@),
                None => None,
            },
        }),
{
    match stored {
        Some(at) => RecordingInfo {
            peer_id,
            file_path: Some(file_path),
            cid: Some(at.0),
            ipfs_gateway_url: Some(at.1),
        },
        None => RecordingInfo { peer_id, file_path: Some(file_path), cid: None, ipfs_gateway_url: None },
    }
}

/// What a handler knows of its socket: the peer and the room that the socket last spoke for.
pub struct SfuSignalingHandler {
    pub peer_id: Option<String>,
    pub room_id: Option<String>,
}

/// A handler as the contracts see it.
pub struct HandlerView {
    pub peer_id: Option<Seq<char>>,
    pub room_id: Option<Seq<char>>,
}

impl View for SfuSignalingHandler {
    type V = HandlerView;

    open spec fn view(&self) -> HandlerView {
        HandlerView { peer_id: opt_view(self.peer_id), room_id: opt_view(self.room_id) }
    }
}

/// The words that go with a successful join.
pub open spec fn join_success_text() -> Seq<char> {
    "Successfully connected to SFU"@
}

/// The words that go with a request that went to the proctor.
pub open spec fn join_request_sent_text() -> Seq<char> {
    "Join request sent to proctor. Waiting for approval..."@
}

/// Why a join is refused, if it is: the peer has a connection already; or it is a student and
/// the room is not there, or the id is that of another peer.
pub open spec fn join_refusal(state: ServerView, peer_id: Seq<char>, room_id: Seq<char>, role: Seq<char>) -> Option<
    (ErrorKind, Seq<char>),
> {
    if state.connections.has(peer_id) {
        Some((ErrorKind::PeerAlreadyExists, peer_id))
    } else if role != "student"@ {
        None
    } else if !state.rooms.has_room(room_id) {
        Some((ErrorKind::RoomNotFound, room_id))
    } else if !state.rooms.join_allowed(room_id, peer_id) {
        Some((ErrorKind::PeerAlreadyExists, peer_id))
    } else {
        None
    }
}

/// Whether the peer of a handler is the proctor of a room and `target` another peer of that
/// room: then the handler may act on `target`.
pub open spec fn may_act_on(handler: HandlerView, state: ServerView, room_id: Seq<char>, target: Seq<char>) -> bool {
    &&& handler.peer_id is Some
    &&& state.rooms.has_room(room_id)
    &&& state.rooms.room(room_id).proctor_id == handler.peer_id->0
    &&& state.rooms.has_peer(target)
    &&& state.rooms.peer(target).room_id == room_id
    &&& target != handler.peer_id->0
}

/// The reply to a peer that may not do what it asked for.
pub open spec fn refusal(handler: HandlerView) -> Seq<ServerActionView> {
    seq![
        error_reply(
            Seq::empty(),
            ErrorKind::Unauthorized,
            match handler.peer_id {
                Some(p) => p,
                None => Seq::empty(),
            },
        ),
    ]
}

/// What follows a peer's leaving: what is to be done at once, and then the wait for the
/// recordings, if the peer was in a room.
pub open spec fn leaving(state: ServerView, peer_id: Seq<char>) -> Seq<ServerActionView> {
    state.leave_actions(peer_id) + (match state.departure(peer_id) {
        Some(d) => seq![ServerActionView::AwaitRecordings { departure: d }],
        None => Seq::empty(),
    })
}

/// The event of an identity check, if the wallet of the checked peer is known.
pub open spec fn verification_event(
    state: ServerView,
    room_id: Seq<char>,
    peer_id: Seq<char>,
    status: VerificationStatus,
    verified_by: Seq<char>,
) -> Seq<ServerActionView> {
    match state.wallet_of(peer_id) {
        Some(w) => seq![
            ServerActionView::Emit {
                event: ChainEventView::IdVerification {
                    room_id,
                    participant: w@,
                    status,
                    verified_by,
                },
            },
        ],
        None => Seq::empty(),
    }
}

impl SfuSignalingHandler {
    /// A handler for a socket that has not spoken yet.
    pub fn new() -> (h: SfuSignalingHandler)
        ensures
            h@.peer_id is None,
            h@.room_id is None,
    {
        SfuSignalingHandler { peer_id: None, room_id: None }
    }

    fn send_error(prefix: &str, error: &SfuError) -> (action: ServerAction)
        ensures
            action@ == error_reply(prefix@, error.spec_kind(), error.payload()),
    {
        let mut message = String::from_str(prefix);
        let words = error.message();
        message.append(words.as_str());
        ServerAction::Reply { message: SfuMessage::Error { message } }
    }

    fn send_join_success() -> (action: ServerAction)
        ensures
            action@ == (ServerActionView::Reply {
                message: SfuMessageView::JoinSuccess { message: join_success_text() },
            }),
    {
        ServerAction::Reply {
            message: SfuMessage::JoinSuccess {
                message: String::from_str("Successfully connected to SFU"),
            },
        }
    }

    fn send_join_request_sent() -> (action: ServerAction)
        ensures
            action@ == (ServerActionView::Reply {
                message: SfuMessageView::JoinRequestSent { message: join_request_sent_text() },
            }),
    {
        ServerAction::Reply {
            message: SfuMessage::JoinRequestSent {
                message: String::from_str("Join request sent to proctor. Waiting for approval..."),
            },
        }
    }

    /// What holds after a proctor has asked for a room, the proctor's wallet being `wallet`.
    /// A proctor whose id is taken is told so, and nothing changes; so if no free room number
    /// was found. Else the room is made and the proctor is told its id, is recorded, is made
    /// known to the ledger if the wallet is known, and gets a connection.
    pub open spec fn create_room_post(
        h0: HandlerView,
        s0: ServerView,
        h1: HandlerView,
        s1: ServerView,
        out: Seq<ServerActionView>,
        peer_id: Seq<char>,
        name: Option<Seq<char>>,
        wallet: Option<Address>,
    ) -> bool {
        if s0.rooms.has_peer(peer_id) {
            &&& h1 == h0
            &&& s1 == s0
            &&& out == seq![
                error_reply("Failed to create room: "@, ErrorKind::PeerAlreadyExists, peer_id),
            ]
        } else if s1.rooms.rooms.len() == s0.rooms.rooms.len() {
            &&& h1 == h0
            &&& s1 == s0
            &&& exists|taken: Seq<char>|
                s0.rooms.has_room(taken) && out == seq![
                    error_reply(
                        "Failed to create room: "@,
                        ErrorKind::RoomAlreadyExists,
                        taken,
                    ),
                ]
        } else {
            let room = s1.rooms.rooms.last();
            let made = ServerView {
                rooms: s0.rooms.with_room(room.id, peer_id, name, room.created_at),
                wallets: s0.wallets_with(peer_id, wallet),
                ..s0
            };
            let opened = seq![
                ServerActionView::Reply { message: SfuMessageView::RoomCreated { room_id: room.id } },
            ] + ServerView::room_opened_actions(room.id, peer_id, name, wallet);
            &&& !s0.rooms.has_room(room.id)
            &&& h1 == HandlerView { peer_id: Some(peer_id), room_id: Some(room.id) }
            &&& if s0.connections.has(peer_id) {
                &&& s1 == made
                &&& out == opened + seq![
                    error_reply(
                        "Failed to setup room: "@,
                        ErrorKind::PeerAlreadyExists,
                        peer_id,
                    ),
                ]
            } else {
                &&& s1 == made.with_connection(peer_id, room.id)
                &&& out == opened + made.connection_actions(peer_id, room.id)
            }
        }
    }

    /// Handles a proctor's request for a room.
    pub fn handle_create_room(
        &mut self,
        server: &mut SfuServer,
        peer_id: String,
        name: Option<String>,
        wallet: Option<String>,
    ) -> (out: Vec<ServerAction>)
        requires
            old(server)@.wf(),
        ensures
            final(server)@.wf(),
            exists|w: Option<Address>|
                wallet_matches(w, opt_view(wallet)) && Self::create_room_post(
                    old(self)@,
                    old(server)@,
                    final(self)@,
                    final(server)@,
                    action_views(out@),
                    peer_id@,
                    opt_view(name),
                    w,
                ),
    {
        let w = parse_wallet(&wallet);
        let mut out: Vec<ServerAction> = Vec::new();
        match server.create_room(peer_id.clone(), clone_opt_string(&name), w) {
            Err(e) => {
                out.push(Self::send_error("Failed to create room: ", &e));
                assert(action_views(out@) =~= seq![out@[0]@]);
                assert(Self::create_room_post(
                    old(self)@,
                    old(server)@,
                    self@,
                    server@,
                    action_views(out@),
                    peer_id@,
                    opt_view(name),
                    w,
                ));
            },
            Ok(made) => {
                let (room_id, mut opened) = made;
                let ghost opened_views = action_views(opened@);
                self.peer_id = Some(peer_id.clone());
                self.room_id = Some(room_id.clone());
                out.push(
                    ServerAction::Reply {
                        message: SfuMessage::RoomCreated { room_id: room_id.clone() },
                    },
                );
                out.append(&mut opened);
                let ghost head = action_views(out@);
                assert(head =~= seq![
                    ServerActionView::Reply {
                        message: SfuMessageView::RoomCreated { room_id: room_id@ },
                    },
                ] + opened_views);
                let ghost middle = server@;
                match server.add_peer(peer_id, room_id) {
                    Ok(mut connected) => {
                        let ghost tail = action_views(connected@);
                        out.append(&mut connected);
                        assert(action_views(out@) =~= head + tail);
                    },
                    Err(e) => {
                        out.push(Self::send_error("Failed to setup room: ", &e));
                        assert(action_views(out@) =~= head + seq![
                            error_reply(
                                "Failed to setup room: "@,
                                ErrorKind::PeerAlreadyExists,
                                peer_id@,
                            ),
                        ]);
                    },
                }
                assert(Self::create_room_post(
                    old(self)@,
                    old(server)@,
                    self@,
                    server@,
                    action_views(out@),
                    peer_id@,
                    opt_view(name),
                    w,
                ));
            },
        }
        out
    }

    /// What holds after a peer has asked to join, its wallet being `wallet`. The handler
    /// speaks for the peer from then on, and the peer does not wait for admission any more.
    /// A join that is refused is answered with the reason. Else a student enters the registry,
    /// and the peer gets its connection and is told of its success.
    pub open spec fn join_post(
        h1: HandlerView,
        s0: ServerView,
        s1: ServerView,
        out: Seq<ServerActionView>,
        room_id: Seq<char>,
        peer_id: Seq<char>,
        name: Option<Seq<char>>,
        role: Seq<char>,
        wallet: Option<Address>,
    ) -> bool {
        let base = ServerView { pending_students: s0.pending_students.delete(peer_id), ..s0 };
        let success = seq![
            ServerActionView::Reply {
                message: SfuMessageView::JoinSuccess { message: join_success_text() },
            },
        ];
        &&& h1 == HandlerView { peer_id: Some(peer_id), room_id: Some(room_id) }
        &&& match join_refusal(base, peer_id, room_id, role) {
            Some(reason) => s1 == base && out == seq![
                error_reply("Failed to join: "@, reason.0, reason.1),
            ],
            None => if role == "student"@ {
                let joined = base.with_student(peer_id, room_id, name, wallet);
                &&& s1 == joined.with_connection(peer_id, room_id)
                &&& out == ServerView::student_actions(peer_id, room_id, name, wallet)
                    + joined.connection_actions(peer_id, room_id) + success
            } else {
                &&& s1 == base.with_connection(peer_id, room_id)
                &&& out == base.connection_actions(peer_id, room_id) + success
            },
        }
    }

    /// Handles a peer's join. A student has waited for the proctor's tracks before, as
    /// `student_wait_step` of the server says.
    pub fn handle_join(
        &mut self,
        server: &mut SfuServer,
        room_id: String,
        peer_id: String,
        name: Option<String>,
        role: String,
        wallet: Option<String>,
    ) -> (out: Vec<ServerAction>)
        requires
            old(server)@.wf(),
        ensures
            final(server)@.wf(),
            exists|w: Option<Address>|
                wallet_matches(w, opt_view(wallet)) && Self::join_post(
                    final(self)@,
                    old(server)@,
                    final(server)@,
                    action_views(out@),
                    room_id@,
                    peer_id@,
                    opt_view(name),
                    role@,
                    w,
                ),
    {
        let w = parse_wallet(&wallet);
        self.peer_id = Some(peer_id.clone());
        self.room_id = Some(room_id.clone());
        server.remove_pending_student(peer_id.as_str());
        let mut out: Vec<ServerAction> = match server.add_peer_with_role(
            peer_id,
            room_id,
            role,
            name,
            w,
        ) {
            Err(e) => {
                let mut out: Vec<ServerAction> = Vec::new();
                out.push(Self::send_error("Failed to join: ", &e));
                assert(action_views(out@) =~= seq![out@[0]@]);
                out
            },
            Ok(mut actions) => {
                let ghost head = action_views(actions@);
                actions.push(Self::send_join_success());
                assert(action_views(actions@) =~= head + seq![
                    ServerActionView::Reply {
                        message: SfuMessageView::JoinSuccess { message: join_success_text() },
                    },
                ]);
                actions
            },
        };
        assert(Self::join_post(
            self@,
            old(server)@,
            server@,
            action_views(out@),
            room_id@,
            peer_id@,
            opt_view(name),
            role@,
            w,
        ));
        out
    }

    /// What holds after a student has asked for admission, the student's wallet being
    /// `wallet`. The handler speaks for the student from then on, and the student waits for
    /// admission. The request goes to the proctor of the room, and the student is told so;
    /// if the room has no connected proctor the student is told that.
    pub open spec fn join_request_post(
        h1: HandlerView,
        s0: ServerView,
        s1: ServerView,
        out: Seq<ServerActionView>,
        room_id: Seq<char>,
        peer_id: Seq<char>,
        name: Option<Seq<char>>,
        role: Seq<char>,
        wallet_text: Option<Seq<char>>,
        wallet: Option<Address>,
    ) -> bool {
        &&& h1 == HandlerView { peer_id: Some(peer_id), room_id: Some(room_id) }
        &&& s1 == ServerView {
            pending_students: s0.pending_students.put(peer_id, PendingStudent { wallet }),
            ..s0
        }
        &&& out == (if s0.rooms.has_room(room_id) && s0.connections.has(
            s0.rooms.room(room_id).proctor_id,
        ) {
            seq![
                ServerActionView::Notify {
                    peer_id: s0.rooms.room(room_id).proctor_id,
                    message: SfuMessageView::JoinRequest {
                        room_id,
                        peer_id,
                        name,
                        role,
                        wallet: wallet_text,
                    },
                },
                ServerActionView::Reply {
                    message: SfuMessageView::JoinRequestSent { message: join_request_sent_text() },
                },
            ]
        } else {
            seq![error_reply("Failed to send join request: "@, ErrorKind::NoProctor, room_id)]
        })
    }

    /// Handles a student's request for admission.
    pub fn handle_join_request(
        &mut self,
        server: &mut SfuServer,
        room_id: String,
        peer_id: String,
        name: Option<String>,
        role: String,
        wallet: Option<String>,
    ) -> (out: Vec<ServerAction>)
        requires
            old(server)@.wf(),
        ensures
            final(server)@.wf(),
            exists|w: Option<Address>|
                wallet_matches(w, opt_view(wallet)) && Self::join_request_post(
                    final(self)@,
                    old(server)@,
                    final(server)@,
                    action_views(out@),
                    room_id@,
                    peer_id@,
                    opt_view(name),
                    role@,
                    opt_view(wallet),
                    w,
                ),
    {
        let w = parse_wallet(&wallet);
        self.peer_id = Some(peer_id.clone());
        self.room_id = Some(room_id.clone());
        server.track_pending_student(peer_id.clone(), w);
        let out: Vec<ServerAction> = match server.forward_join_request(
            room_id,
            peer_id,
            name,
            role,
            wallet,
        ) {
            Err(e) => {
                let mut out: Vec<ServerAction> = Vec::new();
                out.push(Self::send_error("Failed to send join request: ", &e));
                assert(action_views(out@) =~= seq![out@[0]@]);
                out
            },
            Ok(mut actions) => {
                let ghost head = action_views(actions@);
                actions.push(Self::send_join_request_sent());
                assert(action_views(actions@) =~= head + seq![
                    ServerActionView::Reply {
                        message: SfuMessageView::JoinRequestSent {
                            message: join_request_sent_text(),
                        },
                    },
                ]);
                assert(action_views(actions@) =~= seq![
                    head[0],
                    ServerActionView::Reply {
                        message: SfuMessageView::JoinRequestSent {
                            message: join_request_sent_text(),
                        },
                    },
                ]);
                actions
            },
        };
        assert(Self::join_request_post(
            self@,
            old(server)@,
            server@,
            action_views(out@),
            room_id@,
            peer_id@,
            opt_view(name),
            role@,
            opt_view(wallet),
            w,
        ));
        out
    }

    /// What the proctor's answer to a request for admission brings about: the student is
    /// told, if the student is connected or waits; else the proctor is told that the student
    /// is not there.
    pub open spec fn join_response_out(
        s0: ServerView,
        room_id: Seq<char>,
        approved: bool,
        requester_peer_id: Seq<char>,
    ) -> Seq<ServerActionView> {
        if s0.connections.has(requester_peer_id) || s0.pending_students.has(requester_peer_id) {
            seq![
                ServerActionView::Notify {
                    peer_id: requester_peer_id,
                    message: if approved {
                        SfuMessageView::JoinApproved {
                            room_id,
                            message: crate::sfu::server::approved_text(),
                        }
                    } else {
                        SfuMessageView::JoinDenied {
                            room_id,
                            message: crate::sfu::server::denied_text(),
                        }
                    },
                },
            ]
        } else {
            seq![
                error_reply(
                    "Failed to send join response: "@,
                    ErrorKind::PeerNotFound,
                    requester_peer_id,
                ),
            ]
        }
    }

    /// Handles the proctor's answer to a request for admission.
    pub fn handle_join_response(
        &self,
        server: &SfuServer,
        room_id: String,
        approved: bool,
        requester_peer_id: String,
    ) -> (out: Vec<ServerAction>)
        ensures
            action_views(out@) == Self::join_response_out(
                server@,
                room_id@,
                approved,
                requester_peer_id@,
            ),
    {
        match server.send_join_response(room_id, requester_peer_id, approved) {
            Ok(actions) => actions,
            Err(e) => {
                let mut out: Vec<ServerAction> = Vec::new();
                out.push(Self::send_error("Failed to send join response: ", &e));
                assert(action_views(out@) =~= seq![out@[0]@]);
                out
            },
        }
    }

    fn leave(server: &mut SfuServer, peer_id: &str) -> (out: Vec<ServerAction>)
        requires
            old(server)@.wf(),
        ensures
            final(server)@.wf(),
            final(server)@ == old(server)@.after_leave(peer_id@),
            action_views(out@) == leaving(old(server)@, peer_id@),
    {
        let (mut out, departure) = server.remove_peer(peer_id);
        let ghost head = action_views(out@);
        match departure {
            Some(d) => {
                out.push(ServerAction::AwaitRecordings { departure: d });
                assert(action_views(out@) =~= head + seq![
                    ServerActionView::AwaitRecordings { departure: d@ },
                ]);
            },
            None => {
                assert(action_views(out@) =~= head + Seq::<ServerActionView>::empty());
            },
        }
        out
    }

    /// Handles a peer's leaving: the peer is taken out, and the handler speaks for nobody.
    pub fn handle_leave(&mut self, server: &mut SfuServer, peer_id: String) -> (out: Vec<
        ServerAction,
    >)
        requires
            old(server)@.wf(),
        ensures
            final(server)@.wf(),
            final(self)@ == (HandlerView { peer_id: None, room_id: None }),
            final(server)@ == old(server)@.after_leave(peer_id@),
            action_views(out@) == leaving(old(server)@, peer_id@),
    {
        let out = Self::leave(server, peer_id.as_str());
        self.peer_id = None;
        self.room_id = None;
        out
    }

    /// What a peer's answer brings about: nothing for a peer without connection; the applying
    /// of the answer if its SDP parses; else the word that it does not.
    pub open spec fn answer_out(s0: ServerView, peer_id: Seq<char>, sdp: Seq<char>) -> Seq<
        ServerActionView,
    > {
        if !s0.connections.has(peer_id) {
            Seq::empty()
        } else {
            match answer_sdp_failure(sdp) {
                None => seq![ServerActionView::SetRemoteAnswer { peer_id, sdp }],
                Some(words) => seq![
                    error_reply(
                        "Failed to process answer: "@,
                        ErrorKind::InvalidSdp,
                        "Failed to parse answer SDP: "@ + words,
                    ),
                ],
            }
        }
    }

    /// Handles a peer's answer.
    pub fn handle_answer(&self, server: &SfuServer, peer_id: String, sdp: String) -> (out: Vec<
        ServerAction,
    >)
        ensures
            action_views(out@) == Self::answer_out(server@, peer_id@, sdp@),
    {
        match server.handle_answer(peer_id.as_str(), sdp.as_str()) {
            Ok(actions) => actions,
            Err(e) => {
                let mut out: Vec<ServerAction> = Vec::new();
                out.push(Self::send_error("Failed to process answer: ", &e));
                assert(action_views(out@) =~= seq![out@[0]@]);
                out
            },
        }
    }

    /// Handles the end of a socket: the peer that the handler speaks for is taken out and
    /// does not wait for admission any more.
    pub fn cleanup(&mut self, server: &mut SfuServer) -> (out: Vec<ServerAction>)
        requires
            old(server)@.wf(),
        ensures
            final(server)@.wf(),
            final(self)@ == old(self)@,
            match old(self)@.peer_id {
                Some(p) => {
                    let base = ServerView {
                        pending_students: old(server)@.pending_students.delete(p),
                        ..old(server)@
                    };
                    &&& final(server)@ == base.after_leave(p)
                    &&& action_views(out@) == leaving(base, p)
                },
                None => final(server)@ == old(server)@ && out@.len() == 0,
            },
    {
        match &self.peer_id {
            Some(p) => {
                server.remove_pending_student(p.as_str());
                Self::leave(server, p.as_str())
            },
            None => Vec::new(),
        }
    }

    fn may_act(&self, server: &SfuServer, room_id: &str, target: &str) -> (b: bool)
        requires
            server@.wf(),
        ensures
            b == may_act_on(self@, server@, room_id@, target@),
    {
        let me = match &self.peer_id {
            None => {
                return false;
            },
            Some(p) => p,
        };
        let proctor = match server.room_manager.get_room_proctor(room_id) {
            None => {
                return false;
            },
            Some(p) => p,
        };
        if !str_eq(proctor.as_str(), me.as_str()) {
            return false;
        }
        match server.room_manager.get_peer(target) {
            None => false,
            Some(peer) => str_eq(peer.room_id.as_str(), room_id) && !str_eq(target, me.as_str()),
        }
    }

    fn refuse(&self) -> (out: Vec<ServerAction>)
        ensures
            action_views(out@) == refusal(self@),
    {
        let who = match &self.peer_id {
            Some(p) => p.clone(),
            None => String::new(),
        };
        let error = SfuError::Unauthorized(who);
        let mut out: Vec<ServerAction> = Vec::new();
        out.push(Self::send_error("", &error));
        proof {
            reveal_strlit("");
            assert(""@ =~= Seq::<char>::empty());
            assert(action_views(out@) =~= seq![out@[0]@]);
        }
        out
    }

    /// What holds after the proctor has asked to remove a participant. A peer that is not the
    /// proctor of the room, or that names a peer outside the room, is refused. Else the
    /// participant is told, the ledger hears of it if both wallets are known, and the
    /// participant is taken out as one who leaves.
    pub open spec fn kick_post(
        h0: HandlerView,
        s0: ServerView,
        s1: ServerView,
        out: Seq<ServerActionView>,
        room_id: Seq<char>,
        peer_id: Seq<char>,
        reason: Option<Seq<char>>,
    ) -> bool {
        if !may_act_on(h0, s0, room_id, peer_id) {
            s1 == s0 && out == refusal(h0)
        } else {
            &&& s1 == s0.after_leave(peer_id)
            &&& out == seq![
                ServerActionView::Notify {
                    peer_id,
                    message: SfuMessageView::ParticipantKicked { room_id, peer_id, reason },
                },
            ] + (match (s0.wallet_of(h0.peer_id->0), s0.wallet_of(peer_id)) {
                (Some(proctor), Some(kicked)) => seq![
                    ServerActionView::Emit {
                        event: ChainEventView::ParticipantKicked {
                            room_id,
                            proctor: proctor@,
                            kicked: kicked@,
                            reason,
                        },
                    },
                ],
                _ => Seq::empty(),
            }) + leaving(s0, peer_id)
        }
    }

    /// Handles the proctor's request to remove a participant.
    pub fn handle_kick_participant(
        &self,
        server: &mut SfuServer,
        room_id: String,
        peer_id: String,
        reason: Option<String>,
    ) -> (out: Vec<ServerAction>)
        requires
            old(server)@.wf(),
        ensures
            final(server)@.wf(),
            Self::kick_post(
                self@,
                old(server)@,
                final(server)@,
                action_views(out@),
                room_id@,
                peer_id@,
                opt_view(reason),
            ),
    {
        if !self.may_act(server, room_id.as_str(), peer_id.as_str()) {
            return self.refuse();
        }
        let mut out: Vec<ServerAction> = Vec::new();
        out.push(
            ServerAction::Notify {
                peer_id: peer_id.clone(),
                message: SfuMessage::ParticipantKicked {
                    room_id: room_id.clone(),
                    peer_id: peer_id.clone(),
                    reason: clone_opt_string(&reason),
                },
            },
        );
        let me = match &self.peer_id {
            Some(p) => p.as_str(),
            None => "",
        };
        match (server.wallets.get(me), server.wallets.get(peer_id.as_str())) {
            (Some(proctor), Some(kicked)) => {
                out.push(
                    ServerAction::Emit {
                        event: ChainEvent::ParticipantKicked {
                            room_id,
                            proctor: *proctor,
                            kicked: *kicked,
                            reason,
                        },
                    },
                );
            },
            _ => {},
        }
        let ghost head = action_views(out@);
        let mut rest = Self::leave(server, peer_id.as_str());
        let ghost tail = action_views(rest@);
        out.append(&mut rest);
        assert(action_views(out@) =~= head + tail);
        assert(head =~= seq![
            ServerActionView::Notify {
                peer_id: peer_id@,
                message: SfuMessageView::ParticipantKicked {
                    room_id: room_id@,
                    peer_id: peer_id@,
                    reason: opt_view(reason),
                },
            },
        ] + (match (
            old(server)@.wallet_of(self@.peer_id->0),
            old(server)@.wallet_of(peer_id@),
        ) {
            (Some(proctor), Some(kicked)) => seq![
                ServerActionView::Emit {
                    event: ChainEventView::ParticipantKicked {
                        room_id: room_id@,
                        proctor: proctor@,
                        kicked: kicked@,
                        reason: opt_view(reason),
                    },
                },
            ],
            _ => Seq::empty(),
        }));
        out
    }

    /// What an identity check brings about, the word to the participant being `notice` and the
    /// verdict `status`. A peer that is not the proctor of the room, or that names a peer
    /// outside the room, is refused. Else the participant is told, and the ledger hears of it
    /// if the participant's wallet is known.
    pub open spec fn verification_out(
        h0: HandlerView,
        s0: ServerView,
        room_id: Seq<char>,
        peer_id: Seq<char>,
        notice: SfuMessageView,
        status: VerificationStatus,
    ) -> Seq<ServerActionView> {
        if !may_act_on(h0, s0, room_id, peer_id) {
            refusal(h0)
        } else {
            seq![ServerActionView::Notify { peer_id, message: notice }] + verification_event(
                s0,
                room_id,
                peer_id,
                status,
                h0.peer_id->0,
            )
        }
    }

    fn verification(
        &self,
        server: &SfuServer,
        room_id: String,
        peer_id: String,
        notice: SfuMessage,
        status: VerificationStatus,
    ) -> (out: Vec<ServerAction>)
        requires
            server@.wf(),
        ensures
            action_views(out@) == Self::verification_out(
                self@,
                server@,
                room_id@,
                peer_id@,
                notice@,
                status,
            ),
    {
        if !self.may_act(server, room_id.as_str(), peer_id.as_str()) {
            return self.refuse();
        }
        let mut out: Vec<ServerAction> = Vec::new();
        let wallet = match server.wallets.get(peer_id.as_str()) {
            Some(w) => Some(*w),
            None => None,
        };
        out.push(ServerAction::Notify { peer_id, message: notice });
        let ghost head = action_views(out@);
        assert(head =~= seq![ServerActionView::Notify { peer_id: peer_id@, message: notice@ }]);
        match wallet {
            Some(w) => {
                let verified_by = match &self.peer_id {
                    Some(p) => p.clone(),
                    None => String::new(),
                };
                out.push(
                    ServerAction::Emit {
                        event: ChainEvent::IdVerification {
                            room_id,
                            participant: w,
                            status,
                            verified_by,
                        },
                    },
                );
                assert(action_views(out@) =~= head + verification_event(
                    server@,
                    room_id@,
                    peer_id@,
                    status,
                    self@.peer_id->0,
                ));
            },
            None => {
                assert(action_views(out@) =~= head + Seq::<ServerActionView>::empty());
            },
        }
        out
    }

    /// Handles the proctor's request that a participant show an identity document: the
    /// participant is asked, and the check is pending.
    pub fn handle_start_id_verification(&self, server: &SfuServer, room_id: String, peer_id: String) -> (out:
        Vec<ServerAction>)
        requires
            server@.wf(),
        ensures
            action_views(out@) == Self::verification_out(
                self@,
                server@,
                room_id@,
                peer_id@,
                SfuMessageView::StartIdVerification { room_id: room_id@, peer_id: peer_id@ },
                VerificationStatus::Pending,
            ),
    {
        let notice = SfuMessage::StartIdVerification {
            room_id: room_id.clone(),
            peer_id: peer_id.clone(),
        };
        self.verification(server, room_id, peer_id, notice, VerificationStatus::Pending)
    }

    /// Handles the proctor's verdict on a participant's identity: the participant is told the
    /// verdict in the proctor's word.
    pub fn handle_id_verification_result(
        &self,
        server: &SfuServer,
        room_id: String,
        peer_id: String,
        status: String,
    ) -> (out: Vec<ServerAction>)
        requires
            server@.wf(),
        ensures
            action_views(out@) == Self::verification_out(
                self@,
                server@,
                room_id@,
                peer_id@,
                SfuMessageView::IdVerificationStatus { status: status@ },
                spec_parse_status(status@),
            ),
    {
        let verdict = parse_status(status.as_str());
        let notice = SfuMessage::IdVerificationStatus { status };
        self.verification(server, room_id, peer_id, notice, verdict)
    }

    /// What a report of suspicious activity brings about: the ledger hears of it if the wallet
    /// of the peer that it is about is known, and the sender is told that the report came in.
    pub open spec fn suspicious_out(
        s0: ServerView,
        room_id: Seq<char>,
        peer_id: Seq<char>,
        activity_type: Seq<char>,
        details: Option<Seq<char>>,
    ) -> Seq<ServerActionView> {
        (match s0.wallet_of(peer_id) {
            Some(w) => seq![
                ServerActionView::Emit {
                    event: ChainEventView::SuspiciousActivity {
                        room_id,
                        participant: w@,
                        activity_type: spec_parse_activity(activity_type),
                        details,
                    },
                },
            ],
            None => Seq::empty(),
        }) + seq![ServerActionView::Reply { message: SfuMessageView::SuspiciousActivityReported }]
    }

    /// Handles a report of suspicious activity.
    pub fn handle_report_suspicious_activity(
        &self,
        server: &SfuServer,
        room_id: String,
        peer_id: String,
        activity_type: String,
        details: Option<String>,
    ) -> (out: Vec<ServerAction>)
        requires
            server@.wf(),
        ensures
            action_views(out@) == Self::suspicious_out(
                server@,
                room_id@,
                peer_id@,
                activity_type@,
                opt_view(details),
            ),
    {
        let mut out: Vec<ServerAction> = Vec::new();
        match server.wallets.get(peer_id.as_str()) {
            Some(w) => {
                out.push(
                    ServerAction::Emit {
                        event: ChainEvent::SuspiciousActivity {
                            room_id,
                            participant: *w,
                            activity_type: parse_activity(activity_type.as_str()),
                            details,
                        },
                    },
                );
            },
            None => {},
        }
        let ghost head = action_views(out@);
        out.push(ServerAction::Reply { message: SfuMessage::SuspiciousActivityReported });
        assert(action_views(out@) =~= head + seq![
            ServerActionView::Reply { message: SfuMessageView::SuspiciousActivityReported },
        ]);
        assert(head =~= (match server@.wallet_of(peer_id@) {
            Some(w) => seq![
                ServerActionView::Emit {
                    event: ChainEventView::SuspiciousActivity {
                        room_id: room_id@,
                        participant: w@,
                        activity_type: spec_parse_activity(activity_type@),
                        details: opt_view(details),
                    },
                },
            ],
            None => Seq::empty(),
        }));
        out
    }

    /// Handles an exam result: the grade is computed in basis points and kept for a peer that
    /// is in a room, to go to the ledger when the peer leaves; the sender is told the grade.
    pub fn handle_submit_exam_result(
        &self,
        server: &mut SfuServer,
        peer_id: String,
        score: u32,
        total: u32,
        exam_name: Option<String>,
    ) -> (out: Vec<ServerAction>)
        requires
            old(server)@.wf(),
        ensures
            final(server)@.wf(),
            final(server)@ == (if old(server)@.rooms.has_peer(peer_id@) {
                ServerView {
                    grades: old(server)@.grades.put(
                        peer_id@,
                        ExamGrade {
                            grade_basis_points: spec_grade_basis_points(score, total),
                            exam_name,
                        },
                    ),
                    ..old(server)@
                }
            } else {
                old(server)@
            }),
            action_views(out@) == seq![
                ServerActionView::Reply {
                    message: SfuMessageView::ExamResultSubmitted {
                        grade: spec_grade_basis_points(score, total),
                    },
                },
            ],
    {
        let grade = grade_basis_points(score, total);
        if server.room_manager.get_peer(peer_id.as_str()).is_some() {
            server.grades.insert(peer_id, ExamGrade { grade_basis_points: grade, exam_name });
        }
        let mut out: Vec<ServerAction> = Vec::new();
        out.push(ServerAction::Reply { message: SfuMessage::ExamResultSubmitted { grade } });
        assert(action_views(out@) =~= seq![out@[0]@]);
        out
    }

    fn single(action: ServerAction) -> (out: Vec<ServerAction>)
        ensures
            action_views(out@) == seq![action@],
    {
        let mut out: Vec<ServerAction> = Vec::new();
        out.push(action);
        assert(action_views(out@) =~= seq![action@]);
        out
    }

    /// What holds after an envelope has been handled: what the handler for its kind says. An
    /// envelope of a kind that only the server sends changes nothing.
    pub open spec fn handled(
        h0: HandlerView,
        s0: ServerView,
        h1: HandlerView,
        s1: ServerView,
        out: Seq<ServerActionView>,
        message: SfuMessage,
    ) -> bool {
        match message {
            SfuMessage::CreateRoom { peer_id, name, wallet } => exists|w: Option<Address>|
                wallet_matches(w, opt_view(wallet)) && Self::create_room_post(
                    h0,
                    s0,
                    h1,
                    s1,
                    out,
                    peer_id@,
                    opt_view(name),
                    w,
                ),
            SfuMessage::Join { room_id, peer_id, name, role, wallet } => exists|w: Option<Address>|
                wallet_matches(w, opt_view(wallet)) && Self::join_post(
                    h1,
                    s0,
                    s1,
                    out,
                    room_id@,
                    peer_id@,
                    opt_view(name),
                    role@,
                    w,
                ),
            SfuMessage::JoinRequest {
                room_id,
                peer_id,
                name,
                role,
                wallet,
            } => exists|w: Option<Address>|
                wallet_matches(w, opt_view(wallet)) && Self::join_request_post(
                    h1,
                    s0,
                    s1,
                    out,
                    room_id@,
                    peer_id@,
                    opt_view(name),
                    role@,
                    opt_view(wallet),
                    w,
                ),
            SfuMessage::JoinResponse { room_id, peer_id, approved, requester_peer_id } => {
                &&& h1 == h0
                &&& s1 == s0
                &&& out == Self::join_response_out(s0, room_id@, approved, requester_peer_id@)
            },
            SfuMessage::Leave { peer_id } => {
                &&& h1 == HandlerView { peer_id: None, room_id: None }
                &&& s1 == s0.after_leave(peer_id@)
                &&& out == leaving(s0, peer_id@)
            },
            SfuMessage::Answer { peer_id, sdp } => {
                &&& h1 == h0
                &&& s1 == s0
                &&& out == Self::answer_out(s0, peer_id@, sdp@)
            },
            SfuMessage::IceCandidate { peer_id, candidate, sdp_mid, sdp_mline_index } => {
                let item = IceCandidateView {
                    candidate: candidate@,
                    sdp_mid: opt_view(sdp_mid),
                    sdp_mline_index,
                };
                &&& h1 == h0
                &&& s1 == ServerView {
                    pending_ice: if s0.candidate_waits(peer_id@) {
                        s0.pending_ice.push((peer_id@, item))
                    } else {
                        s0.pending_ice
                    },
                    ..s0
                }
                &&& out == (if s0.connections.has(peer_id@) && !s0.candidate_waits(peer_id@) {
                    seq![ServerActionView::AddIceCandidate { peer_id: peer_id@, candidate: item }]
                } else {
                    Seq::empty()
                })
            },
            SfuMessage::StartRecording { room_id, peer_id } => {
                &&& h1 == h0
                &&& s1 == s0
                &&& out == seq![
                    ServerActionView::StartRecording { room_id: room_id@, peer_id: peer_id@ },
                ]
            },
            SfuMessage::StopRecording { room_id, peer_id } => {
                &&& h1 == h0
                &&& s1 == s0
                &&& out == seq![
                    ServerActionView::StopRecording { room_id: room_id@, peer_id: peer_id@ },
                ]
            },
            SfuMessage::StopAllRecordings { room_id } => {
                &&& h1 == h0
                &&& s1 == s0
                &&& out == seq![ServerActionView::StopRoomRecordings { room_id: room_id@ }]
            },
            SfuMessage::GetRecordingStatus { room_id } => {
                &&& h1 == h0
                &&& s1 == s0
                &&& out == seq![ServerActionView::ReportRecordingStatus { room_id: room_id@ }]
            },
            SfuMessage::KickParticipant { room_id, peer_id, reason } => {
                &&& h1 == h0
                &&& Self::kick_post(h0, s0, s1, out, room_id@, peer_id@, opt_view(reason))
            },
            SfuMessage::StartIdVerification { room_id, peer_id } => {
                &&& h1 == h0
                &&& s1 == s0
                &&& out == Self::verification_out(
                    h0,
                    s0,
                    room_id@,
                    peer_id@,
                    SfuMessageView::StartIdVerification { room_id: room_id@, peer_id: peer_id@ },
                    VerificationStatus::Pending,
                )
            },
            SfuMessage::IdVerificationResult { room_id, peer_id, status } => {
                &&& h1 == h0
                &&& s1 == s0
                &&& out == Self::verification_out(
                    h0,
                    s0,
                    room_id@,
                    peer_id@,
                    SfuMessageView::IdVerificationStatus { status: status@ },
                    spec_parse_status(status@),
                )
            },
            SfuMessage::ReportSuspiciousActivity { room_id, peer_id, activity_type, details } => {
                &&& h1 == h0
                &&& s1 == s0
                &&& out == Self::suspicious_out(
                    s0,
                    room_id@,
                    peer_id@,
                    activity_type@,
                    opt_view(details),
                )
            },
            SfuMessage::SubmitExamResult { room_id, peer_id, score, total, exam_name } => {
                &&& h1 == h0
                &&& s1 == (if s0.rooms.has_peer(peer_id@) {
                    ServerView {
                        grades: s0.grades.put(
                            peer_id@,
                            ExamGrade {
                                grade_basis_points: spec_grade_basis_points(score, total),
                                exam_name,
                            },
                        ),
                        ..s0
                    }
                } else {
                    s0
                })
                &&& out == seq![
                    ServerActionView::Reply {
                        message: SfuMessageView::ExamResultSubmitted {
                            grade: spec_grade_basis_points(score, total),
                        },
                    },
                ]
            },
            _ => h1 == h0 && s1 == s0 && out.len() == 0,
        }
    }

    /// Handles one envelope of a socket and says what is to be done.
    pub fn handle_message(&mut self, server: &mut SfuServer, message: SfuMessage) -> (out: Vec<
        ServerAction,
    >)
        requires
            old(server)@.wf(),
        ensures
            final(server)@.wf(),
            Self::handled(
                old(self)@,
                old(server)@,
                final(self)@,
                final(server)@,
                action_views(out@),
                message,
            ),
    {
        match message {
            SfuMessage::CreateRoom { peer_id, name, wallet } => self.handle_create_room(
                server,
                peer_id,
                name,
                wallet,
            ),
            SfuMessage::Join { room_id, peer_id, name, role, wallet } => self.handle_join(
                server,
                room_id,
                peer_id,
                name,
                role,
                wallet,
            ),
            SfuMessage::JoinRequest {
                room_id,
                peer_id,
                name,
                role,
                wallet,
            } => self.handle_join_request(server, room_id, peer_id, name, role, wallet),
            SfuMessage::JoinResponse {
                room_id,
                peer_id,
                approved,
                requester_peer_id,
            } => self.handle_join_response(server, room_id, approved, requester_peer_id),
            SfuMessage::Leave { peer_id } => self.handle_leave(server, peer_id),
            SfuMessage::Answer { peer_id, sdp } => self.handle_answer(server, peer_id, sdp),
            SfuMessage::IceCandidate {
                peer_id,
                candidate,
                sdp_mid,
                sdp_mline_index,
            } => server.handle_ice_candidate(
                peer_id.as_str(),
                candidate.as_str(),
                sdp_mid,
                sdp_mline_index,
            ),
            SfuMessage::StartRecording { room_id, peer_id } => Self::single(
                ServerAction::StartRecording { room_id, peer_id },
            ),
            SfuMessage::StopRecording { room_id, peer_id } => Self::single(
                ServerAction::StopRecording { room_id, peer_id },
            ),
            SfuMessage::StopAllRecordings { room_id } => Self::single(
                ServerAction::StopRoomRecordings { room_id },
            ),
            SfuMessage::GetRecordingStatus { room_id } => Self::single(
                ServerAction::ReportRecordingStatus { room_id },
            ),
            SfuMessage::KickParticipant {
                room_id,
                peer_id,
                reason,
            } => self.handle_kick_participant(server, room_id, peer_id, reason),
            SfuMessage::StartIdVerification {
                room_id,
                peer_id,
            } => self.handle_start_id_verification(server, room_id, peer_id),
            SfuMessage::IdVerificationResult {
                room_id,
                peer_id,
                status,
            } => self.handle_id_verification_result(server, room_id, peer_id, status),
            SfuMessage::ReportSuspiciousActivity {
                room_id,
                peer_id,
                activity_type,
                details,
            } => self.handle_report_suspicious_activity(
                server,
                room_id,
                peer_id,
                activity_type,
                details,
            ),
            SfuMessage::SubmitExamResult {
                room_id,
                peer_id,
                score,
                total,
                exam_name,
            } => self.handle_submit_exam_result(server, peer_id, score, total, exam_name),
            _ => Vec::new(),
        }
    }
}

} // verus!
