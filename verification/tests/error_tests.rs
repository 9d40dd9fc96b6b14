use sfu_server::error::{ErrorKind, SfuError};

#[test]
fn test_error_display() {
    let err = SfuError::RoomNotFound("test-room".to_string());
    assert_eq!(err.message(), "Room test-room not found");
}

#[test]
fn test_error_helpers() {
    let err = SfuError::internal("Something went wrong");
    assert!(matches!(err, SfuError::Internal(_)));
}

#[test]
fn helpers_keep_their_words() {
    assert_eq!(SfuError::internal("a"), SfuError::Internal("a".to_string()));
    assert_eq!(SfuError::webrtc_api("b"), SfuError::WebRtcApi("b".to_string()));
    assert_eq!(SfuError::network("c"), SfuError::NetworkError("c".to_string()));
}

#[test]
fn messages_with_a_prefix() {
    let t = || "x".to_string();
    assert_eq!(SfuError::PeerConnectionCreation(t()).message(), "Failed to create peer connection: x");
    assert_eq!(SfuError::CreateOfferFailed(t()).message(), "Failed to create offer: x");
    assert_eq!(SfuError::CreateAnswerFailed(t()).message(), "Failed to create answer: x");
    assert_eq!(SfuError::InvalidSdp(t()).message(), "Invalid SDP format: x");
    assert_eq!(SfuError::SetLocalDescriptionFailed(t()).message(), "Failed to set local description: x");
    assert_eq!(SfuError::SetRemoteDescriptionFailed(t()).message(), "Failed to set remote description: x");
    assert_eq!(SfuError::AddIceCandidateFailed(t()).message(), "Failed to add ICE candidate: x");
    assert_eq!(SfuError::TrackCreationFailed(t()).message(), "Failed to create track: x");
    assert_eq!(SfuError::AddTrackFailed(t()).message(), "Failed to add track: x");
    assert_eq!(SfuError::InvalidRole(t()).message(), "Invalid peer role: x");
    assert_eq!(SfuError::ApprovalRequired(t()).message(), "Proctor approval required for peer x");
    assert_eq!(SfuError::NoProctor(t()).message(), "No proctor for room x");
    assert_eq!(SfuError::InvalidSignalingMessage(t()).message(), "Invalid signaling message: x");
    assert_eq!(SfuError::SerializationFailed(t()).message(), "Failed to serialize message: x");
    assert_eq!(SfuError::RenegotiationInProgress(t()).message(), "Renegotiation already in progress for peer x");
    assert_eq!(SfuError::TrackRegistrationFailed(t()).message(), "Failed to register track for peer x");
    assert_eq!(SfuError::NoTracksAvailable(t()).message(), "No tracks available for peer x");
    assert_eq!(SfuError::InvalidConfiguration(t()).message(), "Invalid configuration: x");
    assert_eq!(SfuError::MissingConfiguration(t()).message(), "Missing required configuration: x");
    assert_eq!(SfuError::ConfigurationParseFailed(t()).message(), "Failed to parse configuration: x");
    assert_eq!(SfuError::WebRtcApi(t()).message(), "WebRTC API error: x");
    assert_eq!(SfuError::MediaEngineCreation(t()).message(), "Failed to create media engine: x");
    assert_eq!(SfuError::CodecRegistrationFailed(t()).message(), "Failed to register codec: x");
    assert_eq!(SfuError::NetworkError(t()).message(), "Network error: x");
    assert_eq!(SfuError::ConnectionTimeout(t()).message(), "Connection timeout for peer x");
    assert_eq!(SfuError::IceConnectionFailed(t()).message(), "ICE connection failed for peer x");
    assert_eq!(SfuError::Internal(t()).message(), "Internal server error: x");
    assert_eq!(SfuError::Timeout(t()).message(), "Operation timed out: x");
    assert_eq!(SfuError::RecordingNotFound(t()).message(), "No recording found for x");
    assert_eq!(SfuError::RecordingAlreadyActive(t()).message(), "Recording already exists for x");
    assert_eq!(SfuError::MuxerFailed(t()).message(), "Recording pipeline failed: x");
    assert_eq!(SfuError::IpfsUploadFailed(t()).message(), "IPFS upload failed: x");
    assert_eq!(SfuError::SubstrateConnection(t()).message(), "Ledger connection failed: x");
    assert_eq!(SfuError::SubstrateConfig(t()).message(), "Ledger configuration invalid: x");
    assert_eq!(SfuError::ContractCallFailed(t()).message(), "Contract call failed: x");
    assert_eq!(SfuError::Other(t()).message(), "x");
}

#[test]
fn messages_around_their_text() {
    let t = || "x".to_string();
    assert_eq!(SfuError::RoomAlreadyExists(t()).message(), "Room x already exists");
    assert_eq!(SfuError::PeerNotFound(t()).message(), "Peer x not found");
    assert_eq!(SfuError::PeerAlreadyExists(t()).message(), "Peer x already exists");
    assert_eq!(SfuError::Unauthorized(t()).message(), "Peer x not authorized for this operation");
    assert_eq!(SfuError::TrackNotFound(t()).message(), "Track x not found");
}

#[test]
fn unstable_state_is_shown_in_quotes() {
    let err = SfuError::InvalidSignalingState("have-local-offer".to_string());
    assert_eq!(err.message(), "Signaling state not stable: \"have-local-offer\"");
    let odd = SfuError::InvalidSignalingState("a\"b\n".to_string());
    assert_eq!(odd.message(), "Signaling state not stable: \"a\\\"b\\n\"");
}

#[test]
fn kinds_follow_the_variants() {
    assert_eq!(SfuError::RoomNotFound("r".to_string()).kind(), ErrorKind::RoomNotFound);
    assert_eq!(SfuError::InvalidSdp("r".to_string()).kind(), ErrorKind::InvalidSdp);
    assert_eq!(SfuError::Other("r".to_string()).kind(), ErrorKind::Other);
    assert_eq!(SfuError::NoProctor("r".to_string()).kind(), ErrorKind::NoProctor);
}
