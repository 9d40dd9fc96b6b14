use vstd::prelude::*;
use vstd::string::*;

verus! {

/// The failures that the server reports. Each carries the text that its message is built
/// around.
#[derive(Debug, Clone, PartialEq, Eq)]
pub enum SfuError {
    /// A peer connection could not be built.
    PeerConnectionCreation(String),
    CreateOfferFailed(String),
    CreateAnswerFailed(String),
    /// A session description does not parse.
    InvalidSdp(String),
    SetLocalDescriptionFailed(String),
    SetRemoteDescriptionFailed(String),
    AddIceCandidateFailed(String),
    TrackCreationFailed(String),
    AddTrackFailed(String),
    /// There is no room of this id.
    RoomNotFound(String),
    /// The room id is taken.
    RoomAlreadyExists(String),
    /// There is no peer of this id.
    PeerNotFound(String),
    /// The peer id is taken: a second join, or a peer of another room.
    PeerAlreadyExists(String),
    /// The peer may not do what it asked for.
    Unauthorized(String),
    InvalidRole(String),
    ApprovalRequired(String),
    /// The room has no proctor who is connected.
    NoProctor(String),
    /// An envelope does not parse.
    InvalidSignalingMessage(String),
    SerializationFailed(String),
    /// The payload is shown as `{:?}` shows a text.
    InvalidSignalingState(String),
    RenegotiationInProgress(String),
    TrackNotFound(String),
    TrackRegistrationFailed(String),
    NoTracksAvailable(String),
    InvalidConfiguration(String),
    MissingConfiguration(String),
    ConfigurationParseFailed(String),
    WebRtcApi(String),
    MediaEngineCreation(String),
    CodecRegistrationFailed(String),
    NetworkError(String),
    ConnectionTimeout(String),
    IceConnectionFailed(String),
    Internal(String),
    Timeout(String),
    /// No recording runs under this key.
    RecordingNotFound(String),
    /// A recording runs under this key already.
    RecordingAlreadyActive(String),
    /// The muxer of a recording failed.
    MuxerFailed(String),
    /// The object store refused an upload.
    IpfsUploadFailed(String),
    SubstrateConnection(String),
    SubstrateConfig(String),
    /// A submission to the ledger failed.
    ContractCallFailed(String),
    /// Any other failure, in its own words.
    Other(String),
}

/// The kinds of failure, without their texts.
#[derive(Debug, Clone, Copy, PartialEq, Eq, Structural)]
pub enum ErrorKind {
    PeerConnectionCreation,
    CreateOfferFailed,
    CreateAnswerFailed,
    InvalidSdp,
    SetLocalDescriptionFailed,
    SetRemoteDescriptionFailed,
    AddIceCandidateFailed,
    TrackCreationFailed,
    AddTrackFailed,
    RoomNotFound,
    RoomAlreadyExists,
    PeerNotFound,
    PeerAlreadyExists,
    Unauthorized,
    InvalidRole,
    ApprovalRequired,
    NoProctor,
    InvalidSignalingMessage,
    SerializationFailed,
    InvalidSignalingState,
    RenegotiationInProgress,
    TrackNotFound,
    TrackRegistrationFailed,
    NoTracksAvailable,
    InvalidConfiguration,
    MissingConfiguration,
    ConfigurationParseFailed,
    WebRtcApi,
    MediaEngineCreation,
    CodecRegistrationFailed,
    NetworkError,
    ConnectionTimeout,
    IceConnectionFailed,
    Internal,
    Timeout,
    RecordingNotFound,
    RecordingAlreadyActive,
    MuxerFailed,
    IpfsUploadFailed,
    SubstrateConnection,
    SubstrateConfig,
    ContractCallFailed,
    Other,
}

/// The message of a failure of the given kind around the given text.
pub open spec fn message_of(kind: ErrorKind, text: Seq<char>) -> Seq<char> {
    match kind {
        ErrorKind::PeerConnectionCreation => "Failed to create peer connection: "@ + text,
        ErrorKind::CreateOfferFailed => "Failed to create offer: "@ + text,
        ErrorKind::CreateAnswerFailed => "Failed to create answer: "@ + text,
        ErrorKind::InvalidSdp => "Invalid SDP format: "@ + text,
        ErrorKind::SetLocalDescriptionFailed => "Failed to set local description: "@ + text,
        ErrorKind::SetRemoteDescriptionFailed => "Failed to set remote description: "@ + text,
        ErrorKind::AddIceCandidateFailed => "Failed to add ICE candidate: "@ + text,
        ErrorKind::TrackCreationFailed => "Failed to create track: "@ + text,
        ErrorKind::AddTrackFailed => "Failed to add track: "@ + text,
        ErrorKind::RoomNotFound => "Room "@ + text + " not found"@,
        ErrorKind::RoomAlreadyExists => "Room "@ + text + " already exists"@,
        ErrorKind::PeerNotFound => "Peer "@ + text + " not found"@,
        ErrorKind::PeerAlreadyExists => "Peer "@ + text + " already exists"@,
        ErrorKind::Unauthorized => "Peer "@ + text + " not authorized for this operation"@,
        ErrorKind::InvalidRole => "Invalid peer role: "@ + text,
        ErrorKind::ApprovalRequired => "Proctor approval required for peer "@ + text,
        ErrorKind::NoProctor => "No proctor for room "@ + text,
        ErrorKind::InvalidSignalingMessage => "Invalid signaling message: "@ + text,
        ErrorKind::SerializationFailed => "Failed to serialize message: "@ + text,
        ErrorKind::InvalidSignalingState => "Signaling state not stable: "@ + debug_text(text),
        ErrorKind::RenegotiationInProgress => "Renegotiation already in progress for peer "@ + text,
        ErrorKind::TrackNotFound => "Track "@ + text + " not found"@,
        ErrorKind::TrackRegistrationFailed => "Failed to register track for peer "@ + text,
        ErrorKind::NoTracksAvailable => "No tracks available for peer "@ + text,
        ErrorKind::InvalidConfiguration => "Invalid configuration: "@ + text,
        ErrorKind::MissingConfiguration => "Missing required configuration: "@ + text,
        ErrorKind::ConfigurationParseFailed => "Failed to parse configuration: "@ + text,
        ErrorKind::WebRtcApi => "WebRTC API error: "@ + text,
        ErrorKind::MediaEngineCreation => "Failed to create media engine: "@ + text,
        ErrorKind::CodecRegistrationFailed => "Failed to register codec: "@ + text,
        ErrorKind::NetworkError => "Network error: "@ + text,
        ErrorKind::ConnectionTimeout => "Connection timeout for peer "@ + text,
        ErrorKind::IceConnectionFailed => "ICE connection failed for peer "@ + text,
        ErrorKind::Internal => "Internal server error: "@ + text,
        ErrorKind::Timeout => "Operation timed out: "@ + text,
        ErrorKind::RecordingNotFound => "No recording found for "@ + text,
        ErrorKind::RecordingAlreadyActive => "Recording already exists for "@ + text,
        ErrorKind::MuxerFailed => "Recording pipeline failed: "@ + text,
        ErrorKind::IpfsUploadFailed => "IPFS upload failed: "@ + text,
        ErrorKind::SubstrateConnection => "Ledger connection failed: "@ + text,
        ErrorKind::SubstrateConfig => "Ledger configuration invalid: "@ + text,
        ErrorKind::ContractCallFailed => "Contract call failed: "@ + text,
        ErrorKind::Other => text,
    }
}

/// How `{:?}` shows a text: in quotes, with its special characters escaped.
pub uninterp spec fn debug_text(s: Seq<char>) -> Seq<char>;

/// The `Debug` form of a text, as `format!` of std writes it for `{:?}`. The claim is only that
/// the same text gives the same form.
#[verifier::external_body]
fn debug_string(s: &str) -> (r: String)
    ensures
        r@ == debug_text(s@),
{
    format!("{:?}", s)
}

impl SfuError {
    /// The text that the error carries.
    pub open spec fn payload(self) -> Seq<char> {
        match self {
            SfuError::PeerConnectionCreation(s) => s@,
            SfuError::CreateOfferFailed(s) => s@,
            SfuError::CreateAnswerFailed(s) => s@,
            SfuError::InvalidSdp(s) => s@,
            SfuError::SetLocalDescriptionFailed(s) => s@,
            SfuError::SetRemoteDescriptionFailed(s) => s@,
            SfuError::AddIceCandidateFailed(s) => s@,
            SfuError::TrackCreationFailed(s) => s@,
            SfuError::AddTrackFailed(s) => s@,
            SfuError::RoomNotFound(s) => s@,
            SfuError::RoomAlreadyExists(s) => s@,
            SfuError::PeerNotFound(s) => s@,
            SfuError::PeerAlreadyExists(s) => s@,
            SfuError::Unauthorized(s) => s@,
            SfuError::InvalidRole(s) => s@,
            SfuError::ApprovalRequired(s) => s@,
            SfuError::NoProctor(s) => s@,
            SfuError::InvalidSignalingMessage(s) => s@,
            SfuError::SerializationFailed(s) => s@,
            SfuError::InvalidSignalingState(s) => s@,
            SfuError::RenegotiationInProgress(s) => s@,
            SfuError::TrackNotFound(s) => s@,
            SfuError::TrackRegistrationFailed(s) => s@,
            SfuError::NoTracksAvailable(s) => s@,
            SfuError::InvalidConfiguration(s) => s@,
            SfuError::MissingConfiguration(s) => s@,
            SfuError::ConfigurationParseFailed(s) => s@,
            SfuError::WebRtcApi(s) => s@,
            SfuError::MediaEngineCreation(s) => s@,
            SfuError::CodecRegistrationFailed(s) => s@,
            SfuError::NetworkError(s) => s@,
            SfuError::ConnectionTimeout(s) => s@,
            SfuError::IceConnectionFailed(s) => s@,
            SfuError::Internal(s) => s@,
            SfuError::Timeout(s) => s@,
            SfuError::RecordingNotFound(s) => s@,
            SfuError::RecordingAlreadyActive(s) => s@,
            SfuError::MuxerFailed(s) => s@,
            SfuError::IpfsUploadFailed(s) => s@,
            SfuError::SubstrateConnection(s) => s@,
            SfuError::SubstrateConfig(s) => s@,
            SfuError::ContractCallFailed(s) => s@,
            SfuError::Other(s) => s@,
        }
    }

    /// The kind of the error.
    pub open spec fn spec_kind(self) -> ErrorKind {
        match self {
            SfuError::PeerConnectionCreation(_) => ErrorKind::PeerConnectionCreation,
            SfuError::CreateOfferFailed(_) => ErrorKind::CreateOfferFailed,
            SfuError::CreateAnswerFailed(_) => ErrorKind::CreateAnswerFailed,
            SfuError::InvalidSdp(_) => ErrorKind::InvalidSdp,
            SfuError::SetLocalDescriptionFailed(_) => ErrorKind::SetLocalDescriptionFailed,
            SfuError::SetRemoteDescriptionFailed(_) => ErrorKind::SetRemoteDescriptionFailed,
            SfuError::AddIceCandidateFailed(_) => ErrorKind::AddIceCandidateFailed,
            SfuError::TrackCreationFailed(_) => ErrorKind::TrackCreationFailed,
            SfuError::AddTrackFailed(_) => ErrorKind::AddTrackFailed,
            SfuError::RoomNotFound(_) => ErrorKind::RoomNotFound,
            SfuError::RoomAlreadyExists(_) => ErrorKind::RoomAlreadyExists,
            SfuError::PeerNotFound(_) => ErrorKind::PeerNotFound,
            SfuError::PeerAlreadyExists(_) => ErrorKind::PeerAlreadyExists,
            SfuError::Unauthorized(_) => ErrorKind::Unauthorized,
            SfuError::InvalidRole(_) => ErrorKind::InvalidRole,
            SfuError::ApprovalRequired(_) => ErrorKind::ApprovalRequired,
            SfuError::NoProctor(_) => ErrorKind::NoProctor,
            SfuError::InvalidSignalingMessage(_) => ErrorKind::InvalidSignalingMessage,
            SfuError::SerializationFailed(_) => ErrorKind::SerializationFailed,
            SfuError::InvalidSignalingState(_) => ErrorKind::InvalidSignalingState,
            SfuError::RenegotiationInProgress(_) => ErrorKind::RenegotiationInProgress,
            SfuError::TrackNotFound(_) => ErrorKind::TrackNotFound,
            SfuError::TrackRegistrationFailed(_) => ErrorKind::TrackRegistrationFailed,
            SfuError::NoTracksAvailable(_) => ErrorKind::NoTracksAvailable,
            SfuError::InvalidConfiguration(_) => ErrorKind::InvalidConfiguration,
            SfuError::MissingConfiguration(_) => ErrorKind::MissingConfiguration,
            SfuError::ConfigurationParseFailed(_) => ErrorKind::ConfigurationParseFailed,
            SfuError::WebRtcApi(_) => ErrorKind::WebRtcApi,
            SfuError::MediaEngineCreation(_) => ErrorKind::MediaEngineCreation,
            SfuError::CodecRegistrationFailed(_) => ErrorKind::CodecRegistrationFailed,
            SfuError::NetworkError(_) => ErrorKind::NetworkError,
            SfuError::ConnectionTimeout(_) => ErrorKind::ConnectionTimeout,
            SfuError::IceConnectionFailed(_) => ErrorKind::IceConnectionFailed,
            SfuError::Internal(_) => ErrorKind::Internal,
            SfuError::Timeout(_) => ErrorKind::Timeout,
            SfuError::RecordingNotFound(_) => ErrorKind::RecordingNotFound,
            SfuError::RecordingAlreadyActive(_) => ErrorKind::RecordingAlreadyActive,
            SfuError::MuxerFailed(_) => ErrorKind::MuxerFailed,
            SfuError::IpfsUploadFailed(_) => ErrorKind::IpfsUploadFailed,
            SfuError::SubstrateConnection(_) => ErrorKind::SubstrateConnection,
            SfuError::SubstrateConfig(_) => ErrorKind::SubstrateConfig,
            SfuError::ContractCallFailed(_) => ErrorKind::ContractCallFailed,
            SfuError::Other(_) => ErrorKind::Other,
        }
    }

    /// The kind of the error.
    pub fn kind(&self) -> (k: ErrorKind)
        ensures
            k == self.spec_kind(),
    {
        match self {
            SfuError::PeerConnectionCreation(_) => ErrorKind::PeerConnectionCreation,
            SfuError::CreateOfferFailed(_) => ErrorKind::CreateOfferFailed,
            SfuError::CreateAnswerFailed(_) => ErrorKind::CreateAnswerFailed,
            SfuError::InvalidSdp(_) => ErrorKind::InvalidSdp,
            SfuError::SetLocalDescriptionFailed(_) => ErrorKind::SetLocalDescriptionFailed,
            SfuError::SetRemoteDescriptionFailed(_) => ErrorKind::SetRemoteDescriptionFailed,
            SfuError::AddIceCandidateFailed(_) => ErrorKind::AddIceCandidateFailed,
            SfuError::TrackCreationFailed(_) => ErrorKind::TrackCreationFailed,
            SfuError::AddTrackFailed(_) => ErrorKind::AddTrackFailed,
            SfuError::RoomNotFound(_) => ErrorKind::RoomNotFound,
            SfuError::RoomAlreadyExists(_) => ErrorKind::RoomAlreadyExists,
            SfuError::PeerNotFound(_) => ErrorKind::PeerNotFound,
            SfuError::PeerAlreadyExists(_) => ErrorKind::PeerAlreadyExists,
            SfuError::Unauthorized(_) => ErrorKind::Unauthorized,
            SfuError::InvalidRole(_) => ErrorKind::InvalidRole,
            SfuError::ApprovalRequired(_) => ErrorKind::ApprovalRequired,
            SfuError::NoProctor(_) => ErrorKind::NoProctor,
            SfuError::InvalidSignalingMessage(_) => ErrorKind::InvalidSignalingMessage,
            SfuError::SerializationFailed(_) => ErrorKind::SerializationFailed,
            SfuError::InvalidSignalingState(_) => ErrorKind::InvalidSignalingState,
            SfuError::RenegotiationInProgress(_) => ErrorKind::RenegotiationInProgress,
            SfuError::TrackNotFound(_) => ErrorKind::TrackNotFound,
            SfuError::TrackRegistrationFailed(_) => ErrorKind::TrackRegistrationFailed,
            SfuError::NoTracksAvailable(_) => ErrorKind::NoTracksAvailable,
            SfuError::InvalidConfiguration(_) => ErrorKind::InvalidConfiguration,
            SfuError::MissingConfiguration(_) => ErrorKind::MissingConfiguration,
            SfuError::ConfigurationParseFailed(_) => ErrorKind::ConfigurationParseFailed,
            SfuError::WebRtcApi(_) => ErrorKind::WebRtcApi,
            SfuError::MediaEngineCreation(_) => ErrorKind::MediaEngineCreation,
            SfuError::CodecRegistrationFailed(_) => ErrorKind::CodecRegistrationFailed,
            SfuError::NetworkError(_) => ErrorKind::NetworkError,
            SfuError::ConnectionTimeout(_) => ErrorKind::ConnectionTimeout,
            SfuError::IceConnectionFailed(_) => ErrorKind::IceConnectionFailed,
            SfuError::Internal(_) => ErrorKind::Internal,
            SfuError::Timeout(_) => ErrorKind::Timeout,
            SfuError::RecordingNotFound(_) => ErrorKind::RecordingNotFound,
            SfuError::RecordingAlreadyActive(_) => ErrorKind::RecordingAlreadyActive,
            SfuError::MuxerFailed(_) => ErrorKind::MuxerFailed,
            SfuError::IpfsUploadFailed(_) => ErrorKind::IpfsUploadFailed,
            SfuError::SubstrateConnection(_) => ErrorKind::SubstrateConnection,
            SfuError::SubstrateConfig(_) => ErrorKind::SubstrateConfig,
            SfuError::ContractCallFailed(_) => ErrorKind::ContractCallFailed,
            SfuError::Other(_) => ErrorKind::Other,
        }
    }

    /// The message of the error, as a user reads it.
    pub open spec fn spec_message(self) -> Seq<char> {
        message_of(self.spec_kind(), self.payload())
    }

    /// The message of the error, as a user reads it.
    pub fn message(&self) -> (m: String)
        ensures
            m@ == self.spec_message(),
    {
        match self {
            SfuError::PeerConnectionCreation(s) => {
                let mut m = String::from_str("Failed to create peer connection: ");
                m.append(s.as_str());
                m
            },
            SfuError::CreateOfferFailed(s) => {
                let mut m = String::from_str("Failed to create offer: ");
                m.append(s.as_str());
                m
            },
            SfuError::CreateAnswerFailed(s) => {
                let mut m = String::from_str("Failed to create answer: ");
                m.append(s.as_str());
                m
            },
            SfuError::InvalidSdp(s) => {
                let mut m = String::from_str("Invalid SDP format: ");
                m.append(s.as_str());
                m
            },
            SfuError::SetLocalDescriptionFailed(s) => {
                let mut m = String::from_str("Failed to set local description: ");
                m.append(s.as_str());
                m
            },
            SfuError::SetRemoteDescriptionFailed(s) => {
                let mut m = String::from_str("Failed to set remote description: ");
                m.append(s.as_str());
                m
            },
            SfuError::AddIceCandidateFailed(s) => {
                let mut m = String::from_str("Failed to add ICE candidate: ");
                m.append(s.as_str());
                m
            },
            SfuError::TrackCreationFailed(s) => {
                let mut m = String::from_str("Failed to create track: ");
                m.append(s.as_str());
                m
            },
            SfuError::AddTrackFailed(s) => {
                let mut m = String::from_str("Failed to add track: ");
                m.append(s.as_str());
                m
            },
            SfuError::RoomNotFound(s) => {
                let mut m = String::from_str("Room ");
                m.append(s.as_str());
                m.append(" not found");
                m
            },
            SfuError::RoomAlreadyExists(s) => {
                let mut m = String::from_str("Room ");
                m.append(s.as_str());
                m.append(" already exists");
                m
            },
            SfuError::PeerNotFound(s) => {
                let mut m = String::from_str("Peer ");
                m.append(s.as_str());
                m.append(" not found");
                m
            },
            SfuError::PeerAlreadyExists(s) => {
                let mut m = String::from_str("Peer ");
                m.append(s.as_str());
                m.append(" already exists");
                m
            },
            SfuError::Unauthorized(s) => {
                let mut m = String::from_str("Peer ");
                m.append(s.as_str());
                m.append(" not authorized for this operation");
                m
            },
            SfuError::InvalidRole(s) => {
                let mut m = String::from_str("Invalid peer role: ");
                m.append(s.as_str());
                m
            },
            SfuError::ApprovalRequired(s) => {
                let mut m = String::from_str("Proctor approval required for peer ");
                m.append(s.as_str());
                m
            },
            SfuError::NoProctor(s) => {
                let mut m = String::from_str("No proctor for room ");
                m.append(s.as_str());
                m
            },
            SfuError::InvalidSignalingMessage(s) => {
                let mut m = String::from_str("Invalid signaling message: ");
                m.append(s.as_str());
                m
            },
            SfuError::SerializationFailed(s) => {
                let mut m = String::from_str("Failed to serialize message: ");
                m.append(s.as_str());
                m
            },
            SfuError::InvalidSignalingState(s) => {
                let mut m = String::from_str("Signaling state not stable: ");
                let shown = debug_string(s.as_str());
                m.append(shown.as_str());
                m
            },
            SfuError::RenegotiationInProgress(s) => {
                let mut m = String::from_str("Renegotiation already in progress for peer ");
                m.append(s.as_str());
                m
            },
            SfuError::TrackNotFound(s) => {
                let mut m = String::from_str("Track ");
                m.append(s.as_str());
                m.append(" not found");
                m
            },
            SfuError::TrackRegistrationFailed(s) => {
                let mut m = String::from_str("Failed to register track for peer ");
                m.append(s.as_str());
                m
            },
            SfuError::NoTracksAvailable(s) => {
                let mut m = String::from_str("No tracks available for peer ");
                m.append(s.as_str());
                m
            },
            SfuError::InvalidConfiguration(s) => {
                let mut m = String::from_str("Invalid configuration: ");
                m.append(s.as_str());
                m
            },
            SfuError::MissingConfiguration(s) => {
                let mut m = String::from_str("Missing required configuration: ");
                m.append(s.as_str());
                m
            },
            SfuError::ConfigurationParseFailed(s) => {
                let mut m = String::from_str("Failed to parse configuration: ");
                m.append(s.as_str());
                m
            },
            SfuError::WebRtcApi(s) => {
                let mut m = String::from_str("WebRTC API error: ");
                m.append(s.as_str());
                m
            },
            SfuError::MediaEngineCreation(s) => {
                let mut m = String::from_str("Failed to create media engine: ");
                m.append(s.as_str());
                m
            },
            SfuError::CodecRegistrationFailed(s) => {
                let mut m = String::from_str("Failed to register codec: ");
                m.append(s.as_str());
                m
            },
            SfuError::NetworkError(s) => {
                let mut m = String::from_str("Network error: ");
                m.append(s.as_str());
                m
            },
            SfuError::ConnectionTimeout(s) => {
                let mut m = String::from_str("Connection timeout for peer ");
                m.append(s.as_str());
                m
            },
            SfuError::IceConnectionFailed(s) => {
                let mut m = String::from_str("ICE connection failed for peer ");
                m.append(s.as_str());
                m
            },
            SfuError::Internal(s) => {
                let mut m = String::from_str("Internal server error: ");
                m.append(s.as_str());
                m
            },
            SfuError::Timeout(s) => {
                let mut m = String::from_str("Operation timed out: ");
                m.append(s.as_str());
                m
            },
            SfuError::RecordingNotFound(s) => {
                let mut m = String::from_str("No recording found for ");
                m.append(s.as_str());
                m
            },
            SfuError::RecordingAlreadyActive(s) => {
                let mut m = String::from_str("Recording already exists for ");
                m.append(s.as_str());
                m
            },
            SfuError::MuxerFailed(s) => {
                let mut m = String::from_str("Recording pipeline failed: ");
                m.append(s.as_str());
                m
            },
            SfuError::IpfsUploadFailed(s) => {
                let mut m = String::from_str("IPFS upload failed: ");
                m.append(s.as_str());
                m
            },
            SfuError::SubstrateConnection(s) => {
                let mut m = String::from_str("Ledger connection failed: ");
                m.append(s.as_str());
                m
            },
            SfuError::SubstrateConfig(s) => {
                let mut m = String::from_str("Ledger configuration invalid: ");
                m.append(s.as_str());
                m
            },
            SfuError::ContractCallFailed(s) => {
                let mut m = String::from_str("Contract call failed: ");
                m.append(s.as_str());
                m
            },
            SfuError::Other(s) => s.clone(),
        }
    }

    /// An internal error with the given words.
    pub fn internal(msg: &str) -> (e: SfuError)
        ensures
            e matches SfuError::Internal(s) && s@ == msg@,
    {
        SfuError::Internal(msg.to_owned())
    }

    /// An error of the WebRTC layer with the given words.
    pub fn webrtc_api(msg: &str) -> (e: SfuError)
        ensures
            e matches SfuError::WebRtcApi(s) && s@ == msg@,
    {
        SfuError::WebRtcApi(msg.to_owned())
    }

    /// An error of the network with the given words.
    pub fn network(msg: &str) -> (e: SfuError)
        ensures
            e matches SfuError::NetworkError(s) && s@ == msg@,
    {
        SfuError::NetworkError(msg.to_owned())
    }
}

} // verus!
