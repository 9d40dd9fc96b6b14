use sfu_server::sfu::connection::{
    ice_candidate_message, offer_message, renegotiate_message, track_id, RtpLoop, SfuConnection,
    LOGGED_WRITE_ERRORS, PLI_INTERVAL_MS,
};
use sfu_server::sfu::server::ServerAction;
use sfu_server::sfu::signaling::SfuMessage;
use sfu_server::sfu::track_manager::{
    clone_codec, CodecCapability, ForwardedTrack, LocalSink, RemoteTrack, TrackKind, TrackManager,
};
use sfu_server::sfu::webrtc_utils::{
    audio_codec, create_webrtc_api, get_ice_servers, video_codec, IceServer,
    TurnServer, WebRTCConfig,
};

fn s(t: &str) -> String {
    t.to_string()
}

fn video(ssrc: u32) -> RemoteTrack {
    RemoteTrack { kind: TrackKind::Video, ssrc, codec: video_codec().capability }
}

fn audio(ssrc: u32) -> RemoteTrack {
    RemoteTrack { kind: TrackKind::Audio, ssrc, codec: audio_codec().capability }
}

fn sink(track: &str, source: &str, subscriber: &str, codec: CodecCapability) -> LocalSink {
    LocalSink {
        subscriber_id: s(subscriber),
        track_id: s(track),
        stream_id: format!("{}_stream", source),
        codec,
    }
}

#[test]
fn track_ids_name_peer_kind_and_track() {
    assert_eq!(track_id("p1", TrackKind::Video, "cam"), "p1_video_cam");
    assert_eq!(track_id("s1", TrackKind::Audio, "{mic-1}"), "s1_audio_{mic-1}");
    assert_eq!(track_id("", TrackKind::Audio, ""), "_audio_");
    assert_eq!(track_id("p1", TrackKind::Video, "cam"), track_id("p1", TrackKind::Video, "cam"));
    assert_eq!(TrackKind::Video.name(), "video");
    assert_eq!(TrackKind::Audio.name(), "audio");
}

#[test]
fn a_new_track_has_no_sink() {
    let mut tracks = TrackManager::new();
    tracks.add_track(s("p1_video_cam"), s("p1"), video(11));
    let track = tracks.get_track("p1_video_cam").unwrap();
    assert_eq!(
        track,
        ForwardedTrack {
            id: s("p1_video_cam"),
            kind: TrackKind::Video,
            source_peer_id: s("p1"),
            remote_track: video(11),
            local_tracks: vec![],
        }
    );
    assert!(tracks.get_track("p1_audio_mic").is_none());
    assert_eq!(tracks.track_count(), 1);
    assert_eq!(tracks.track_at(0), &track);
}

#[test]
fn a_sink_is_made_once_for_each_subscriber() {
    let mut tracks = TrackManager::new();
    tracks.add_track(s("p1_video_cam"), s("p1"), video(11));
    let first = tracks.create_local_track_for_peer("p1_video_cam", "s1").unwrap();
    let expected = sink("p1_video_cam", "p1", "s1", video_codec().capability);
    assert_eq!(first, (expected.clone(), true, true, 11, s("p1")));
    let again = tracks.create_local_track_for_peer("p1_video_cam", "s1").unwrap();
    assert_eq!(again, (expected.clone(), false, true, 11, s("p1")));
    let other = tracks.create_local_track_for_peer("p1_video_cam", "s2").unwrap();
    assert_eq!(other.0.subscriber_id, "s2");
    assert!(other.1);
    let track = tracks.get_track("p1_video_cam").unwrap();
    assert_eq!(
        track.local_tracks,
        vec![expected, sink("p1_video_cam", "p1", "s2", video_codec().capability)]
    );
}

#[test]
fn audio_sinks_say_so() {
    let mut tracks = TrackManager::new();
    tracks.add_track(s("p1_audio_mic"), s("p1"), audio(12));
    let made = tracks.create_local_track_for_peer("p1_audio_mic", "s1").unwrap();
    assert_eq!(made.0, sink("p1_audio_mic", "p1", "s1", audio_codec().capability));
    assert_eq!((made.1, made.2, made.3), (true, false, 12));
}

#[test]
fn no_sink_for_the_source_nor_for_an_unknown_track() {
    let mut tracks = TrackManager::new();
    tracks.add_track(s("p1_video_cam"), s("p1"), video(11));
    assert!(tracks.create_local_track_for_peer("p1_video_cam", "p1").is_none());
    assert!(tracks.create_local_track_for_peer("nothing", "s1").is_none());
    assert!(tracks.get_track("p1_video_cam").unwrap().local_tracks.is_empty());
}

#[test]
fn tracks_are_listed_in_their_order() {
    let mut tracks = TrackManager::new();
    tracks.add_track(s("p1_video_cam"), s("p1"), video(11));
    tracks.add_track(s("s1_video_cam"), s("s1"), video(21));
    tracks.add_track(s("p1_audio_mic"), s("p1"), audio(12));
    assert_eq!(tracks.get_all_track_ids(), vec![s("p1_video_cam"), s("s1_video_cam"), s("p1_audio_mic")]);
    assert_eq!(tracks.get_tracks_from_peer("p1"), vec![s("p1_video_cam"), s("p1_audio_mic")]);
    assert_eq!(tracks.get_tracks_from_peer("s1"), vec![s("s1_video_cam")]);
    assert!(tracks.get_tracks_from_peer("s2").is_empty());
}

#[test]
fn a_track_added_again_starts_anew() {
    let mut tracks = TrackManager::new();
    tracks.add_track(s("p1_video_cam"), s("p1"), video(11));
    tracks.add_track(s("p1_audio_mic"), s("p1"), audio(12));
    tracks.create_local_track_for_peer("p1_video_cam", "s1").unwrap();
    tracks.add_track(s("p1_video_cam"), s("p1"), video(99));
    assert_eq!(tracks.get_all_track_ids(), vec![s("p1_audio_mic"), s("p1_video_cam")]);
    let track = tracks.get_track("p1_video_cam").unwrap();
    assert_eq!(track.remote_track.ssrc, 99);
    assert!(track.local_tracks.is_empty());
}

#[test]
fn the_tracks_of_a_peer_go_with_their_sinks() {
    let mut tracks = TrackManager::new();
    tracks.add_track(s("p1_video_cam"), s("p1"), video(11));
    tracks.add_track(s("s1_video_cam"), s("s1"), video(21));
    tracks.add_track(s("p1_audio_mic"), s("p1"), audio(12));
    tracks.create_local_track_for_peer("p1_video_cam", "s1").unwrap();
    tracks.create_local_track_for_peer("s1_video_cam", "p1").unwrap();
    tracks.remove_peer_tracks("p1");
    assert_eq!(tracks.get_all_track_ids(), vec![s("s1_video_cam")]);
    assert!(tracks.get_track("p1_video_cam").is_none());
    assert_eq!(tracks.get_track("s1_video_cam").unwrap().local_tracks.len(), 1);
    tracks.remove_peer_tracks("nobody");
    assert_eq!(tracks.track_count(), 1);
}

#[test]
fn codecs_are_copied_whole() {
    let codec = video_codec().capability;
    assert_eq!(clone_codec(&codec), codec);
}

#[test]
fn the_engine_offers_vp8_and_opus() {
    let video = video_codec();
    assert_eq!(video.payload_type, 96);
    assert_eq!(video.kind, TrackKind::Video);
    assert_eq!(video.capability.mime_type, "video/VP8");
    assert_eq!(video.capability.clock_rate, 90000);
    assert_eq!(video.capability.channels, 0);
    assert_eq!(video.capability.sdp_fmtp_line, "");
    let feedback: Vec<(String, String)> = video
        .capability
        .rtcp_feedback
        .iter()
        .map(|f| (f.typ.clone(), f.parameter.clone()))
        .collect();
    assert_eq!(
        feedback,
        vec![(s("goog-remb"), s("")), (s("ccm"), s("fir")), (s("nack"), s("")), (s("nack"), s("pli"))]
    );
    let audio = audio_codec();
    assert_eq!(audio.payload_type, 111);
    assert_eq!(audio.kind, TrackKind::Audio);
    assert_eq!(audio.capability.mime_type, "audio/opus");
    assert_eq!(audio.capability.clock_rate, 48000);
    assert_eq!(audio.capability.channels, 2);
    assert_eq!(audio.capability.sdp_fmtp_line, "minptime=10;useinbandfec=1");
    assert!(audio.capability.rtcp_feedback.is_empty());
    let settings = create_webrtc_api();
    assert_eq!(settings.codecs, vec![video, audio]);
    assert!(settings.ipv4_only);
    assert!(!settings.multicast_dns);
    assert_eq!(settings.transceivers, vec![TrackKind::Video, TrackKind::Audio]);
}

#[test]
fn ice_servers_follow_the_configuration() {
    let config = WebRTCConfig::from_values(None, None, None, None);
    assert_eq!(config.stun_servers, vec![s("stun:stun.l.google.com:19302")]);
    assert!(config.turn_servers.is_empty());
    assert_eq!(
        get_ice_servers(&config),
        vec![IceServer {
            urls: vec![s("stun:stun.l.google.com:19302")],
            username: s(""),
            credential: s(""),
            with_password: false,
        }]
    );
    let full = WebRTCConfig::from_values(
        Some(s("stun:a")),
        Some(s("turn:b")),
        Some(s("user")),
        Some(s("secret")),
    );
    assert_eq!(
        full.turn_servers,
        vec![TurnServer { urls: vec![s("turn:b")], username: s("user"), credential: s("secret") }]
    );
    assert_eq!(
        get_ice_servers(&full),
        vec![
            IceServer { urls: vec![s("stun:a")], username: s(""), credential: s(""), with_password: false },
            IceServer {
                urls: vec![s("turn:b")],
                username: s("user"),
                credential: s("secret"),
                with_password: true,
            },
        ]
    );
    let partial = WebRTCConfig::from_values(None, Some(s("turn:b")), None, Some(s("secret")));
    assert!(partial.turn_servers.is_empty());
}

#[test]
fn several_servers_keep_their_order() {
    let config = WebRTCConfig {
        stun_servers: vec![s("stun:a"), s("stun:b")],
        turn_servers: vec![
            TurnServer { urls: vec![s("turn:c"), s("turn:d")], username: s("u"), credential: s("v") },
            TurnServer { urls: vec![], username: s("w"), credential: s("x") },
        ],
    };
    let servers = get_ice_servers(&config);
    assert_eq!(servers.len(), 4);
    assert_eq!(servers[0].urls, vec![s("stun:a")]);
    assert_eq!(servers[1].urls, vec![s("stun:b")]);
    assert_eq!(servers[2].urls, vec![s("turn:c"), s("turn:d")]);
    assert!(servers[2].with_password);
    assert!(servers[3].urls.is_empty());
    assert_eq!(servers[3].username, "w");
}

#[test]
fn the_server_signs_its_offers() {
    assert_eq!(offer_message(s("v=0")), SfuMessage::Offer { sdp: s("v=0"), peer_id: s("sfu") });
    assert_eq!(renegotiate_message(s("v=0")), SfuMessage::Renegotiate { sdp: s("v=0") });
}

#[test]
fn the_server_signs_its_candidates() {
    assert_eq!(
        ice_candidate_message(s("candidate:1"), Some(s("0")), Some(0)),
        SfuMessage::IceCandidate {
            peer_id: s("sfu"),
            candidate: s("candidate:1"),
            sdp_mid: Some(s("0")),
            sdp_mline_index: Some(0),
        }
    );
}

fn forwarded(kind: TrackKind, subscribers: &[&str]) -> ForwardedTrack {
    let remote = if kind == TrackKind::Video { video(1) } else { audio(1) };
    ForwardedTrack {
        id: s("p1_x"),
        kind,
        source_peer_id: s("p1"),
        local_tracks: subscribers
            .iter()
            .map(|t| sink("p1_x", "p1", t, remote.codec.clone()))
            .collect(),
        remote_track: remote,
    }
}

#[test]
fn packets_go_to_every_sink() {
    let track = forwarded(TrackKind::Video, &["s1", "s2"]);
    let mut state = RtpLoop::new(TrackKind::Video);
    let plan = state.on_packet(Some(&track), 0);
    assert_eq!(plan.targets, vec![s("s1"), s("s2")]);
    assert_eq!(plan.record_as, TrackKind::Video);
    let none = state.on_packet(None, 1);
    assert!(none.targets.is_empty());
    let lonely = state.on_packet(Some(&forwarded(TrackKind::Video, &[])), 2);
    assert!(lonely.targets.is_empty());
    assert_eq!(state.packet_count, 3);
}

#[test]
fn video_asks_for_key_frames_at_most_every_three_seconds() {
    assert_eq!(PLI_INTERVAL_MS, 3000);
    let track = forwarded(TrackKind::Video, &["s1"]);
    let mut state = RtpLoop::new(TrackKind::Video);
    assert!(state.on_packet(Some(&track), 1_000).send_pli);
    assert!(!state.on_packet(Some(&track), 1_001).send_pli);
    assert!(!state.on_packet(Some(&track), 3_999).send_pli);
    assert!(state.on_packet(Some(&track), 4_000).send_pli);
    assert!(!state.on_packet(Some(&track), 6_999).send_pli);
    assert!(!state.on_packet(Some(&track), 500).send_pli);
    assert!(state.on_packet(Some(&track), 7_000).send_pli);
    assert_eq!(state.last_pli_ms, Some(7_000));
}

#[test]
fn the_first_video_packet_asks_for_a_key_frame_at_once() {
    let mut state = RtpLoop::new(TrackKind::Video);
    assert!(state.on_packet(None, 10).send_pli);
    assert!(!state.on_packet(None, 10_000).send_pli);
    assert!(!state.on_packet(Some(&forwarded(TrackKind::Video, &[])), 20_000).send_pli);
    assert!(state.on_packet(Some(&forwarded(TrackKind::Video, &["s1"])), 20_001).send_pli);
}

#[test]
fn audio_never_asks_for_key_frames() {
    let track = forwarded(TrackKind::Audio, &["s1"]);
    let mut state = RtpLoop::new(TrackKind::Audio);
    for now in [0u64, 5_000, 10_000] {
        let plan = state.on_packet(Some(&track), now);
        assert!(!plan.send_pli);
        assert_eq!(plan.record_as, TrackKind::Audio);
    }
    assert_eq!(state.last_pli_ms, None);
}

#[test]
fn only_the_first_five_packets_report_failed_writes() {
    assert_eq!(LOGGED_WRITE_ERRORS, 5);
    let mut state = RtpLoop::new(TrackKind::Audio);
    let logged: Vec<bool> = (0..7).map(|i| state.on_packet(None, i).log_write_errors).collect();
    assert_eq!(logged, vec![true, true, true, true, true, false, false]);
    let mut full = RtpLoop { kind: TrackKind::Audio, packet_count: u64::MAX, last_pli_ms: None };
    full.on_packet(None, 0);
    assert_eq!(full.packet_count, u64::MAX);
}

#[test]
fn a_connection_gets_the_existing_tracks() {
    let mut tracks = TrackManager::new();
    tracks.add_track(s("p1_video_cam"), s("p1"), video(11));
    tracks.add_track(s("p1_audio_mic"), s("p1"), audio(12));
    let connection = SfuConnection::new(s("s1"));
    let actions = connection.add_existing_tracks(
        &mut tracks,
        vec![s("p1_video_cam"), s("missing"), s("p1_audio_mic"), s("p1_video_cam")],
    );
    let video_sink = sink("p1_video_cam", "p1", "s1", video_codec().capability);
    let audio_sink = sink("p1_audio_mic", "p1", "s1", audio_codec().capability);
    assert_eq!(
        actions,
        vec![
            ServerAction::AddTrack { target_peer_id: s("s1"), sink: video_sink.clone() },
            ServerAction::SendPli { source_peer_id: s("p1"), sender_ssrc: 0, media_ssrc: 11 },
            ServerAction::AddTrack { target_peer_id: s("s1"), sink: audio_sink },
            ServerAction::AddTrack { target_peer_id: s("s1"), sink: video_sink },
        ]
    );
    assert_eq!(connection.close(), ServerAction::CloseConnection { peer_id: s("s1") });
    assert_eq!(
        connection.send_message(offer_message(s("v=0"))),
        ServerAction::Notify {
            peer_id: s("s1"),
            message: SfuMessage::Offer { sdp: s("v=0"), peer_id: s("sfu") },
        }
    );
}

#[test]
fn the_sinks_of_a_subscriber_go_with_it() {
    let mut tracks = TrackManager::new();
    tracks.add_track(s("p1_video_cam"), s("p1"), video(11));
    tracks.add_track(s("p1_audio_mic"), s("p1"), audio(12));
    tracks.create_local_track_for_peer("p1_video_cam", "s1").unwrap();
    tracks.create_local_track_for_peer("p1_video_cam", "s2").unwrap();
    tracks.create_local_track_for_peer("p1_audio_mic", "s1").unwrap();
    tracks.remove_peer_sinks("s1");
    assert_eq!(
        tracks.get_track("p1_video_cam").unwrap().local_tracks,
        vec![sink("p1_video_cam", "p1", "s2", video_codec().capability)]
    );
    assert!(tracks.get_track("p1_audio_mic").unwrap().local_tracks.is_empty());
    assert_eq!(tracks.track_count(), 2);
    let again = tracks.create_local_track_for_peer("p1_audio_mic", "s1").unwrap();
    assert!(again.1);
    tracks.remove_peer_sinks("nobody");
    assert_eq!(tracks.get_track("p1_audio_mic").unwrap().local_tracks.len(), 1);
}
