use crate::error::SfuError;
use crate::substrate::config::AssetHubConfig;
use crate::substrate::{parse_address, spec_parse_address, Address};
use crate::text::{str_contains, text_views};
use vstd::prelude::*;
use vstd::string::*;

verus! {

/// The role of a participant as the ledger records it.
#[derive(Debug, Clone, Copy, PartialEq, Eq, Structural)]
pub enum Role {
    Proctor,
    Student,
}

/// Why a participant left a room.
#[derive(Debug, Clone, Copy, PartialEq, Eq, Structural)]
pub enum LeaveReason {
    Normal,
    Kicked,
    Disconnected,
    RoomClosed,
    ProctorLeft,
}

/// The outcome of an identity check.
#[derive(Debug, Clone, Copy, PartialEq, Eq, Structural)]
pub enum VerificationStatus {
    Valid,
    Invalid,
    Pending,
    Skipped,
}

/// The kinds of suspicious activity.
#[derive(Debug, Clone, Copy, PartialEq, Eq, Structural)]
pub enum SuspiciousActivityType {
    MultipleDevices,
    TabSwitch,
    WindowBlur,
    ScreenShare,
    UnauthorizedPerson,
    AudioAnomaly,
    Other,
}

/// Why a room was closed.
#[derive(Debug, Clone, Copy, PartialEq, Eq, Structural)]
pub enum RoomCloseReason {
    ProctorLeft,
    SessionCompleted,
    AdminClosed,
    Timeout,
}

impl Role {
    /// The number that the ledger takes for this role.
    pub fn code(self) -> (c: u8)
        ensures
            c == match self {
                Role::Proctor => 0u8,
                Role::Student => 1u8,
            },
    {
        match self {
            Role::Proctor => 0,
            Role::Student => 1,
        }
    }
}

impl LeaveReason {
    /// The number that the ledger takes for this reason.
    pub fn code(self) -> (c: u8)
        ensures
            c == match self {
                LeaveReason::Normal => 0u8,
                LeaveReason::Kicked => 1u8,
                LeaveReason::Disconnected => 2u8,
                LeaveReason::RoomClosed => 3u8,
                LeaveReason::ProctorLeft => 4u8,
            },
    {
        match self {
            LeaveReason::Normal => 0,
            LeaveReason::Kicked => 1,
            LeaveReason::Disconnected => 2,
            LeaveReason::RoomClosed => 3,
            LeaveReason::ProctorLeft => 4,
        }
    }
}

impl VerificationStatus {
    /// The number that the ledger takes for this status.
    pub fn code(self) -> (c: u8)
        ensures
            c == match self {
                VerificationStatus::Valid => 0u8,
                VerificationStatus::Invalid => 1u8,
                VerificationStatus::Pending => 2u8,
                VerificationStatus::Skipped => 3u8,
            },
    {
        match self {
            VerificationStatus::Valid => 0,
            VerificationStatus::Invalid => 1,
            VerificationStatus::Pending => 2,
            VerificationStatus::Skipped => 3,
        }
    }
}

impl SuspiciousActivityType {
    /// The number that the ledger takes for this kind.
    pub fn code(self) -> (c: u8)
        ensures
            c == match self {
                SuspiciousActivityType::MultipleDevices => 0u8,
                SuspiciousActivityType::TabSwitch => 1u8,
                SuspiciousActivityType::WindowBlur => 2u8,
                SuspiciousActivityType::ScreenShare => 3u8,
                SuspiciousActivityType::UnauthorizedPerson => 4u8,
                SuspiciousActivityType::AudioAnomaly => 5u8,
                SuspiciousActivityType::Other => 6u8,
            },
    {
        match self {
            SuspiciousActivityType::MultipleDevices => 0,
            SuspiciousActivityType::TabSwitch => 1,
            SuspiciousActivityType::WindowBlur => 2,
            SuspiciousActivityType::ScreenShare => 3,
            SuspiciousActivityType::UnauthorizedPerson => 4,
            SuspiciousActivityType::AudioAnomaly => 5,
            SuspiciousActivityType::Other => 6,
        }
    }
}

impl RoomCloseReason {
    /// The number that the ledger takes for this reason.
    pub fn code(self) -> (c: u8)
        ensures
            c == match self {
                RoomCloseReason::ProctorLeft => 0u8,
                RoomCloseReason::SessionCompleted => 1u8,
                RoomCloseReason::AdminClosed => 2u8,
                RoomCloseReason::Timeout => 3u8,
            },
    {
        match self {
            RoomCloseReason::ProctorLeft => 0,
            RoomCloseReason::SessionCompleted => 1,
            RoomCloseReason::AdminClosed => 2,
            RoomCloseReason::Timeout => 3,
        }
    }
}

/// The classes of failure of a submission, by which the wait before the next try goes.
#[derive(Debug, Clone, Copy, PartialEq, Eq, Structural)]
pub enum ErrorClass {
    /// The ledger still holds an earlier submission of this account.
    Nonce,
    /// The endpoint did not answer properly.
    Transport,
    /// Anything else.
    Generic,
}

/// Whether `needle` stands somewhere in `text`.
pub open spec fn text_contains(text: Seq<char>, needle: Seq<char>) -> bool {
    exists|i: int|
        0 <= i <= text.len() - needle.len() && #[trigger] text.subrange(i, i + needle.len())
            == needle
}

/// The class of an error message. A message that speaks of a nonce is of that class whatever
/// else it says; one that names an HTTP status of a failed endpoint is a transport failure.
pub open spec fn spec_classify_error(message: Seq<char>) -> ErrorClass {
    if text_contains(message, "Priority is too low"@) || text_contains(message, "nonce"@)
        || text_contains(message, "already known"@) {
        ErrorClass::Nonce
    } else if text_contains(message, "502"@) || text_contains(message, "404"@) || text_contains(
        message,
        "503"@,
    ) || text_contains(message, "429"@) {
        ErrorClass::Transport
    } else {
        ErrorClass::Generic
    }
}

/// The class of an error message.
pub fn classify_error(message: &str) -> (class: ErrorClass)
    ensures
        class == spec_classify_error(message@),
{
    if str_contains(message, "Priority is too low") || str_contains(message, "nonce")
        || str_contains(message, "already known") {
        ErrorClass::Nonce
    } else if str_contains(message, "502") || str_contains(message, "404") || str_contains(
        message,
        "503",
    ) || str_contains(message, "429") {
        ErrorClass::Transport
    } else {
        ErrorClass::Generic
    }
}

/// The seconds to wait after the failed try number `attempt` (counted from 0): ten, five or
/// three seconds by the class, times the number of tries made.
pub open spec fn spec_retry_delay_secs(class: ErrorClass, attempt: nat) -> nat {
    match class {
        ErrorClass::Nonce => 10 * (attempt + 1),
        ErrorClass::Transport => 5 * (attempt + 1),
        ErrorClass::Generic => 3 * (attempt + 1),
    }
}

/// The seconds to wait after the failed try number `attempt` (counted from 0).
pub fn retry_delay_secs(class: ErrorClass, attempt: u32) -> (secs: u64)
    ensures
        secs == spec_retry_delay_secs(class, attempt as nat),
{
    let tries: u64 = attempt as u64 + 1;
    match class {
        ErrorClass::Nonce => 10 * tries,
        ErrorClass::Transport => 5 * tries,
        ErrorClass::Generic => 3 * tries,
    }
}

/// What follows a failed submission.
#[derive(Debug, Clone, Copy, PartialEq, Eq, Structural)]
pub enum RetryStep {
    /// Wait so many seconds, then make the try with the given number.
    Wait { secs: u64, next_attempt: u32 },
    /// No try is left: the submission has failed for good.
    GiveUp,
}

/// What follows the failed try number `attempt` of at most `retry_count` tries: a wait by the
/// class of the failure while a try is left, else the end.
pub open spec fn spec_after_failure(attempt: nat, retry_count: nat, message: Seq<char>) -> RetryStep {
    if attempt + 1 < retry_count {
        RetryStep::Wait {
            secs: spec_retry_delay_secs(spec_classify_error(message), attempt) as u64,
            next_attempt: (attempt + 1) as u32,
        }
    } else {
        RetryStep::GiveUp
    }
}

/// What follows the failed try number `attempt` of at most `retry_count` tries.
pub fn after_failure(attempt: u32, retry_count: u32, message: &str) -> (step: RetryStep)
    ensures
        step == spec_after_failure(attempt as nat, retry_count as nat, message@),
{
    if attempt < u32::MAX && attempt + 1 < retry_count {
        RetryStep::Wait {
            secs: retry_delay_secs(classify_error(message), attempt),
            next_attempt: attempt + 1,
        }
    } else {
        RetryStep::GiveUp
    }
}

/// The waits grow with every try, and after `retry_count` tries no further one is made.
pub proof fn lemma_retries_are_bounded(attempt: nat, retry_count: nat, message: Seq<char>)
    ensures
        attempt + 1 >= retry_count ==> spec_after_failure(attempt, retry_count, message)
            == RetryStep::GiveUp,
        spec_retry_delay_secs(spec_classify_error(message), attempt) < spec_retry_delay_secs(
            spec_classify_error(message),
            attempt + 1,
        ),
        spec_retry_delay_secs(ErrorClass::Generic, attempt) <= spec_retry_delay_secs(
            ErrorClass::Transport,
            attempt,
        ) <= spec_retry_delay_secs(ErrorClass::Nonce, attempt),
{
}

/// A call of the ledger's contract, with the arguments as the contract takes them: texts
/// that may be absent are empty, and roles, reasons and kinds are numbers.
#[derive(Debug, Clone, PartialEq, Eq)]
#[allow(inconsistent_fields)]
pub enum ContractCall {
    RecordRoomCreated { room_id: String, proctor: Address, proctor_name: String },
    RecordParticipantJoined { room_id: String, participant: Address, name: String, role: u8 },
    RecordParticipantLeft { room_id: String, participant: Address, reason: u8 },
    RecordParticipantKicked { room_id: String, proctor: Address, kicked: Address, reason: String },
    RecordIdVerification { room_id: String, participant: Address, status: u8, verified_by: String },
    RecordSuspiciousActivity {
        room_id: String,
        participant: Address,
        activity_type: u8,
        details: String,
    },
    RecordRecordingStarted { room_id: String, participant: Address },
    RecordRecordingStopped {
        room_id: String,
        participant: Address,
        duration_secs: u64,
        ipfs_cid: String,
    },
    CloseRoom { room_id: String, reason: u8 },
    CreateExamResult { room_id: String, participant: Address, grade: u64, exam_name: String },
    AddRecordingToResult { result_id: u64, ipfs_cid: String },
    AddRecordingsToResult { result_id: u64, ipfs_cids: Vec<String> },
    UpdateExamResultGrade { result_id: u64, new_grade: u64 },
    MarkNftMinted { result_id: u64 },
}

/// A call as the contracts see it.
#[allow(inconsistent_fields)]
pub enum ContractCallView {
    RecordRoomCreated { room_id: Seq<char>, proctor: Seq<u8>, proctor_name: Seq<char> },
    RecordParticipantJoined { room_id: Seq<char>, participant: Seq<u8>, name: Seq<char>, role: u8 },
    RecordParticipantLeft { room_id: Seq<char>, participant: Seq<u8>, reason: u8 },
    RecordParticipantKicked {
        room_id: Seq<char>,
        proctor: Seq<u8>,
        kicked: Seq<u8>,
        reason: Seq<char>,
    },
    RecordIdVerification {
        room_id: Seq<char>,
        participant: Seq<u8>,
        status: u8,
        verified_by: Seq<char>,
    },
    RecordSuspiciousActivity {
        room_id: Seq<char>,
        participant: Seq<u8>,
        activity_type: u8,
        details: Seq<char>,
    },
    RecordRecordingStarted { room_id: Seq<char>, participant: Seq<u8> },
    RecordRecordingStopped {
        room_id: Seq<char>,
        participant: Seq<u8>,
        duration_secs: u64,
        ipfs_cid: Seq<char>,
    },
    CloseRoom { room_id: Seq<char>, reason: u8 },
    CreateExamResult { room_id: Seq<char>, participant: Seq<u8>, grade: u64, exam_name: Seq<char> },
    AddRecordingToResult { result_id: u64, ipfs_cid: Seq<char> },
    AddRecordingsToResult { result_id: u64, ipfs_cids: Seq<Seq<char>> },
    UpdateExamResultGrade { result_id: u64, new_grade: u64 },
    MarkNftMinted { result_id: u64 },
}

impl View for ContractCall {
    type V = ContractCallView;

    open spec fn view(&self) -> ContractCallView {
        match *self {
            ContractCall::RecordRoomCreated {
                room_id,
                proctor,
                proctor_name,
            } => ContractCallView::RecordRoomCreated {
                room_id: room_id@,
                proctor: proctor@,
                proctor_name: proctor_name@,
            },
            ContractCall::RecordParticipantJoined {
                room_id,
                participant,
                name,
                role,
            } => ContractCallView::RecordParticipantJoined {
                room_id: room_id@,
                participant: participant@,
                name: name@,
                role,
            },
            ContractCall::RecordParticipantLeft {
                room_id,
                participant,
                reason,
            } => ContractCallView::RecordParticipantLeft {
                room_id: room_id@,
                participant: participant@,
                reason,
            },
            ContractCall::RecordParticipantKicked {
                room_id,
                proctor,
                kicked,
                reason,
            } => ContractCallView::RecordParticipantKicked {
                room_id: room_id@,
                proctor: proctor@,
                kicked: kicked@,
                reason: reason@,
            },
            ContractCall::RecordIdVerification {
                room_id,
                participant,
                status,
                verified_by,
            } => ContractCallView::RecordIdVerification {
                room_id: room_id@,
                participant: participant@,
                status,
                verified_by: verified_by@,
            },
            ContractCall::RecordSuspiciousActivity {
                room_id,
                participant,
                activity_type,
                details,
            } => ContractCallView::RecordSuspiciousActivity {
                room_id: room_id@,
                participant: participant@,
                activity_type,
                details: details@,
            },
            ContractCall::RecordRecordingStarted {
                room_id,
                participant,
            } => ContractCallView::RecordRecordingStarted {
                room_id: room_id@,
                participant: participant@,
            },
            ContractCall::RecordRecordingStopped {
                room_id,
                participant,
                duration_secs,
                ipfs_cid,
            } => ContractCallView::RecordRecordingStopped {
                room_id: room_id@,
                participant: participant@,
                duration_secs,
                ipfs_cid: ipfs_cid@,
            },
            ContractCall::CloseRoom { room_id, reason } => ContractCallView::CloseRoom {
                room_id: room_id@,
                reason,
            },
            ContractCall::CreateExamResult {
                room_id,
                participant,
                grade,
                exam_name,
            } => ContractCallView::CreateExamResult {
                room_id: room_id@,
                participant: participant@,
                grade,
                exam_name: exam_name@,
            },
            ContractCall::AddRecordingToResult {
                result_id,
                ipfs_cid,
            } => ContractCallView::AddRecordingToResult { result_id, ipfs_cid: ipfs_cid@ },
            ContractCall::AddRecordingsToResult {
                result_id,
                ipfs_cids,
            } => ContractCallView::AddRecordingsToResult {
                result_id,
                ipfs_cids: text_views(ipfs_cids@),
            },
            ContractCall::UpdateExamResultGrade {
                result_id,
                new_grade,
            } => ContractCallView::UpdateExamResultGrade { result_id, new_grade },
            ContractCall::MarkNftMinted { result_id } => ContractCallView::MarkNftMinted {
                result_id,
            },
        }
    }
}

/// A text that may be absent, as the ledger takes it: empty where it is absent.
pub open spec fn text_or_empty(o: Option<Seq<char>>) -> Seq<char> {
    match o {
        Some(t) => t,
        None => Seq::empty(),
    }
}

/// The number that the ledger takes for a role.
pub open spec fn role_code(role: Role) -> u8 {
    match role {
        Role::Proctor => 0,
        Role::Student => 1,
    }
}

/// The number that the ledger takes for a reason to leave.
pub open spec fn leave_reason_code(reason: LeaveReason) -> u8 {
    match reason {
        LeaveReason::Normal => 0,
        LeaveReason::Kicked => 1,
        LeaveReason::Disconnected => 2,
        LeaveReason::RoomClosed => 3,
        LeaveReason::ProctorLeft => 4,
    }
}

/// The number that the ledger takes for the outcome of an identity check.
pub open spec fn verification_status_code(status: VerificationStatus) -> u8 {
    match status {
        VerificationStatus::Valid => 0,
        VerificationStatus::Invalid => 1,
        VerificationStatus::Pending => 2,
        VerificationStatus::Skipped => 3,
    }
}

/// The number that the ledger takes for a kind of suspicious activity.
pub open spec fn activity_code(kind: SuspiciousActivityType) -> u8 {
    match kind {
        SuspiciousActivityType::MultipleDevices => 0,
        SuspiciousActivityType::TabSwitch => 1,
        SuspiciousActivityType::WindowBlur => 2,
        SuspiciousActivityType::ScreenShare => 3,
        SuspiciousActivityType::UnauthorizedPerson => 4,
        SuspiciousActivityType::AudioAnomaly => 5,
        SuspiciousActivityType::Other => 6,
    }
}

/// The number that the ledger takes for a reason to close a room.
pub open spec fn close_reason_code(reason: RoomCloseReason) -> u8 {
    match reason {
        RoomCloseReason::ProctorLeft => 0,
        RoomCloseReason::SessionCompleted => 1,
        RoomCloseReason::AdminClosed => 2,
        RoomCloseReason::Timeout => 3,
    }
}

/// A text that may be absent, as a slice.
pub open spec fn opt_str_view(o: Option<&str>) -> Option<Seq<char>> {
    match o {
        Some(t) => Some(t@),
        None => None,
    }
}

fn str_or_empty(o: Option<&str>) -> (s: String)
    ensures
        s@ == text_or_empty(opt_str_view(o)),
{
    match o {
        Some(t) => t.to_owned(),
        None => String::new(),
    }
}

/// What the server knows of the contract on the ledger.
#[derive(Debug, Clone, PartialEq, Eq)]
pub struct ContractClient {
    pub contract_address: Address,
    pub submission_timeout_secs: u64,
    pub retry_count: u32,
    pub gas_limit: u64,
    pub rpc_url: String,
}

impl ContractClient {
    /// A client for a configuration. The contract's address must be one.
    pub fn new(config: &AssetHubConfig) -> (res: Result<ContractClient, SfuError>)
        ensures
            match res {
                Ok(client) => {
                    &&& spec_parse_address(config.contract_address@) == Some(
                        client.contract_address@,
                    )
                    &&& client.submission_timeout_secs == config.submission_timeout_secs
                    &&& client.retry_count == config.retry_count
                    &&& client.gas_limit == config.gas_limit
                    &&& client.rpc_url@ == config.rpc_url@
                },
                Err(SfuError::SubstrateConfig(e)) => {
                    &&& spec_parse_address(config.contract_address@) is None
                    &&& e@ == "Invalid contract address: "@ + config.contract_address@
                },
                Err(_) => false,
            },
    {
        match parse_address(config.contract_address.as_str()) {
            Some(contract_address) => Ok(
                ContractClient {
                    contract_address,
                    submission_timeout_secs: config.submission_timeout_secs,
                    retry_count: config.retry_count,
                    gas_limit: config.gas_limit,
                    rpc_url: config.rpc_url.clone(),
                },
            ),
            None => {
                let mut words = String::from_str("Invalid contract address: ");
                words.append(config.contract_address.as_str());
                Err(SfuError::SubstrateConfig(words))
            },
        }
    }

    /// The contract's address.
    pub fn contract_address(&self) -> (address: Address)
        ensures
            address == self.contract_address,
    {
        self.contract_address
    }

    /// The call that records the making of a room.
    pub fn record_room_created(&self, room_id: &str, proctor: Address, proctor_name: Option<&str>) -> (call:
        ContractCall)
        ensures
            call@ == (ContractCallView::RecordRoomCreated {
                room_id: room_id@,
                proctor: proctor@,
                proctor_name: text_or_empty(opt_str_view(proctor_name)),
            }),
    {
        ContractCall::RecordRoomCreated {
            room_id: room_id.to_owned(),
            proctor,
            proctor_name: str_or_empty(proctor_name),
        }
    }

    /// The call that records a participant's joining.
    pub fn record_participant_joined(
        &self,
        room_id: &str,
        participant: Address,
        name: Option<&str>,
        role: Role,
    ) -> (call: ContractCall)
        ensures
            call@ == (ContractCallView::RecordParticipantJoined {
                room_id: room_id@,
                participant: participant@,
                name: text_or_empty(opt_str_view(name)),
                role: role_code(role),
            }),
    {
        ContractCall::RecordParticipantJoined {
            room_id: room_id.to_owned(),
            participant,
            name: str_or_empty(name),
            role: role.code(),
        }
    }

    /// The call that records a participant's leaving.
    pub fn record_participant_left(&self, room_id: &str, participant: Address, reason: LeaveReason) -> (call:
        ContractCall)
        ensures
            call@ == (ContractCallView::RecordParticipantLeft {
                room_id: room_id@,
                participant: participant@,
                reason: leave_reason_code(reason),
            }),
    {
        ContractCall::RecordParticipantLeft {
            room_id: room_id.to_owned(),
            participant,
            reason: reason.code(),
        }
    }

    /// The call that records the removal of a participant by the proctor.
    pub fn record_participant_kicked(
        &self,
        room_id: &str,
        proctor: Address,
        kicked: Address,
        reason: Option<&str>,
    ) -> (call: ContractCall)
        ensures
            call@ == (ContractCallView::RecordParticipantKicked {
                room_id: room_id@,
                proctor: proctor@,
                kicked: kicked@,
                reason: text_or_empty(opt_str_view(reason)),
            }),
    {
        ContractCall::RecordParticipantKicked {
            room_id: room_id.to_owned(),
            proctor,
            kicked,
            reason: str_or_empty(reason),
        }
    }

    /// The call that records an identity check.
    pub fn record_id_verification(
        &self,
        room_id: &str,
        participant: Address,
        status: VerificationStatus,
        verified_by: &str,
    ) -> (call: ContractCall)
        ensures
            call@ == (ContractCallView::RecordIdVerification {
                room_id: room_id@,
                participant: participant@,
                status: verification_status_code(status),
                verified_by: verified_by@,
            }),
    {
        ContractCall::RecordIdVerification {
            room_id: room_id.to_owned(),
            participant,
            status: status.code(),
            verified_by: verified_by.to_owned(),
        }
    }

    /// The call that records suspicious activity.
    pub fn record_suspicious_activity(
        &self,
        room_id: &str,
        participant: Address,
        activity_type: SuspiciousActivityType,
        details: Option<&str>,
    ) -> (call: ContractCall)
        ensures
            call@ == (ContractCallView::RecordSuspiciousActivity {
                room_id: room_id@,
                participant: participant@,
                activity_type: activity_code(activity_type),
                details: text_or_empty(opt_str_view(details)),
            }),
    {
        ContractCall::RecordSuspiciousActivity {
            room_id: room_id.to_owned(),
            participant,
            activity_type: activity_type.code(),
            details: str_or_empty(details),
        }
    }

    /// The call that records the start of a recording.
    pub fn record_recording_started(&self, room_id: &str, participant: Address) -> (call:
        ContractCall)
        ensures
            call@ == (ContractCallView::RecordRecordingStarted {
                room_id: room_id@,
                participant: participant@,
            }),
    {
        ContractCall::RecordRecordingStarted { room_id: room_id.to_owned(), participant }
    }

    /// The call that records the end of a recording.
    pub fn record_recording_stopped(
        &self,
        room_id: &str,
        participant: Address,
        duration_secs: u64,
        ipfs_cid: Option<&str>,
    ) -> (call: ContractCall)
        ensures
            call@ == (ContractCallView::RecordRecordingStopped {
                room_id: room_id@,
                participant: participant@,
                duration_secs,
                ipfs_cid: text_or_empty(opt_str_view(ipfs_cid)),
            }),
    {
        ContractCall::RecordRecordingStopped {
            room_id: room_id.to_owned(),
            participant,
            duration_secs,
            ipfs_cid: str_or_empty(ipfs_cid),
        }
    }

    /// The call that closes a room.
    pub fn close_room(&self, room_id: &str, reason: RoomCloseReason) -> (call: ContractCall)
        ensures
            call@ == (ContractCallView::CloseRoom {
                room_id: room_id@,
                reason: close_reason_code(reason),
            }),
    {
        ContractCall::CloseRoom { room_id: room_id.to_owned(), reason: reason.code() }
    }

    /// The call that makes an exam result.
    pub fn create_exam_result(&self, room_id: &str, participant: Address, grade: u64, exam_name: &str) -> (call:
        ContractCall)
        ensures
            call@ == (ContractCallView::CreateExamResult {
                room_id: room_id@,
                participant: participant@,
                grade,
                exam_name: exam_name@,
            }),
    {
        ContractCall::CreateExamResult {
            room_id: room_id.to_owned(),
            participant,
            grade,
            exam_name: exam_name.to_owned(),
        }
    }

    /// The call that adds a recording to an exam result.
    pub fn add_recording_to_result(&self, result_id: u64, ipfs_cid: &str) -> (call: ContractCall)
        ensures
            call@ == (ContractCallView::AddRecordingToResult { result_id, ipfs_cid: ipfs_cid@ }),
    {
        ContractCall::AddRecordingToResult { result_id, ipfs_cid: ipfs_cid.to_owned() }
    }

    /// The call that adds several recordings to an exam result.
    pub fn add_recordings_to_result(&self, result_id: u64, ipfs_cids: Vec<String>) -> (call:
        ContractCall)
        ensures
            call@ == (ContractCallView::AddRecordingsToResult {
                result_id,
                ipfs_cids: text_views(ipfs_cids@),
            }),
    {
        ContractCall::AddRecordingsToResult { result_id, ipfs_cids }
    }

    /// The call that changes the grade of an exam result.
    pub fn update_exam_result_grade(&self, result_id: u64, new_grade: u64) -> (call: ContractCall)
        ensures
            call@ == (ContractCallView::UpdateExamResultGrade { result_id, new_grade }),
    {
        ContractCall::UpdateExamResultGrade { result_id, new_grade }
    }

    /// The call that marks the token of an exam result as minted.
    pub fn mark_nft_minted(&self, result_id: u64) -> (call: ContractCall)
        ensures
            call@ == (ContractCallView::MarkNftMinted { result_id }),
    {
        ContractCall::MarkNftMinted { result_id }
    }

    /// What follows the failed try number `attempt` of a submission, by the client's number
    /// of tries.
    pub fn send_tx_with_retry(&self, attempt: u32, message: &str) -> (step: RetryStep)
        ensures
            step == spec_after_failure(attempt as nat, self.retry_count as nat, message@),
    {
        after_failure(attempt, self.retry_count, message)
    }
}

} // verus!
