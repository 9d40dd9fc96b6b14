use sfu_server::error::SfuError;
use sfu_server::sfu::room::PeerRole;
use sfu_server::sfu::server::{
    departure_actions, grade_basis_points, Connection, Departure, EvictedStudent, ExamGrade,
    IceCandidate, RenegotiationStep, ServerAction, SfuServer, StoppedRecording, StudentWait,
};
use sfu_server::sfu::signaling::{
    all_recordings_stopped_reply, parse_activity, parse_status, recording_info,
    recording_started_reply, recording_status_reply, recording_stopped_reply, RecordingInfo,
    SfuMessage, SfuSignalingHandler,
};
use sfu_server::sfu::track_manager::{LocalSink, RemoteTrack, TrackKind};
use sfu_server::sfu::webrtc_utils::{audio_codec, video_codec};
use sfu_server::substrate::client::{
    LeaveReason, Role, RoomCloseReason, SuspiciousActivityType, VerificationStatus,
};
use sfu_server::substrate::queue::ChainEvent;
use sfu_server::substrate::Address;

const VALID_SDP: &str = "v=0\r\no=- 4596489990601351948 2 IN IP4 127.0.0.1\r\ns=-\r\nt=0 0\r\n";

fn s(t: &str) -> String {
    t.to_string()
}

fn wallet_text(n: u64) -> String {
    Address::from_low_u64_be(n).to_hex()
}

fn video(ssrc: u32) -> RemoteTrack {
    RemoteTrack { kind: TrackKind::Video, ssrc, codec: video_codec().capability }
}

fn audio(ssrc: u32) -> RemoteTrack {
    RemoteTrack { kind: TrackKind::Audio, ssrc, codec: audio_codec().capability }
}

fn video_sink(track: &str, source: &str, subscriber: &str) -> LocalSink {
    LocalSink {
        subscriber_id: s(subscriber),
        track_id: s(track),
        stream_id: format!("{}_stream", source),
        codec: video_codec().capability,
    }
}

fn audio_sink(track: &str, source: &str, subscriber: &str) -> LocalSink {
    LocalSink {
        subscriber_id: s(subscriber),
        track_id: s(track),
        stream_id: format!("{}_stream", source),
        codec: audio_codec().capability,
    }
}

fn reply_error(message: &str) -> ServerAction {
    ServerAction::Reply { message: SfuMessage::Error { message: s(message) } }
}

fn join_success() -> ServerAction {
    ServerAction::Reply {
        message: SfuMessage::JoinSuccess { message: s("Successfully connected to SFU") },
    }
}

/// A server with a room of the proctor `p1`, who is connected and has the given wallet.
fn server_with_room(wallet: Option<u64>) -> (SfuServer, SfuSignalingHandler, String) {
    let mut server = SfuServer::new("./recordings");
    let mut handler = SfuSignalingHandler::new();
    let out = handler.handle_message(
        &mut server,
        SfuMessage::CreateRoom {
            peer_id: s("p1"),
            name: Some(s("Dr")),
            wallet: wallet.map(wallet_text),
        },
    );
    let room_id = match &out[0] {
        ServerAction::Reply { message: SfuMessage::RoomCreated { room_id } } => room_id.clone(),
        other => panic!("no room: {:?}", other),
    };
    (server, handler, room_id)
}

fn join(server: &mut SfuServer, room_id: &str, peer: &str, wallet: Option<u64>) -> (SfuSignalingHandler, Vec<ServerAction>) {
    let mut handler = SfuSignalingHandler::new();
    let out = handler.handle_message(
        server,
        SfuMessage::Join {
            room_id: s(room_id),
            peer_id: s(peer),
            name: None,
            role: s("student"),
            wallet: wallet.map(wallet_text),
        },
    );
    (handler, out)
}

#[test]
fn grades_are_basis_points() {
    assert_eq!(grade_basis_points(85, 100), 8500);
    assert_eq!(grade_basis_points(7, 8), 8750);
    assert_eq!(grade_basis_points(1, 3), 3333);
    assert_eq!(grade_basis_points(2, 3), 6666);
    assert_eq!(grade_basis_points(0, 5), 0);
    assert_eq!(grade_basis_points(5, 5), 10000);
    assert_eq!(grade_basis_points(5, 0), 0);
    assert_eq!(grade_basis_points(0, 0), 0);
    assert_eq!(grade_basis_points(3, 2), 15000);
    assert_eq!(grade_basis_points(u32::MAX, 1), 42_949_672_950_000);
    assert_eq!(grade_basis_points(u32::MAX, u32::MAX), 10000);
    assert_eq!(grade_basis_points(1, u32::MAX), 0);
}

#[test]
fn scenario_room_creation_and_forwarding_policy() {
    let mut server = SfuServer::new("./recordings");
    let mut handler = SfuSignalingHandler::new();
    let out = handler.handle_message(
        &mut server,
        SfuMessage::CreateRoom { peer_id: s("p1"), name: Some(s("Dr")), wallet: None },
    );
    let room_id = match &out[0] {
        ServerAction::Reply { message: SfuMessage::RoomCreated { room_id } } => room_id.clone(),
        other => panic!("no room: {:?}", other),
    };
    assert_eq!(room_id.len(), 6);
    assert!(room_id.chars().all(|c| c.is_ascii_digit()));
    assert!((100000..=999999).contains(&room_id.parse::<u32>().unwrap()));
    assert_eq!(
        out,
        vec![
            ServerAction::Reply { message: SfuMessage::RoomCreated { room_id: room_id.clone() } },
            ServerAction::StartRecording { room_id: room_id.clone(), peer_id: s("p1") },
            ServerAction::CreateConnection { peer_id: s("p1") },
            ServerAction::SendOffer { peer_id: s("p1") },
        ]
    );
    assert_eq!(handler.peer_id, Some(s("p1")));
    assert_eq!(handler.room_id, Some(room_id.clone()));
    assert!(!server.room_manager.should_forward_track("p1", "p1"));
    assert!(server.room_manager.room_exists(&room_id));
    assert_eq!(server.connections.get("p1"), Some(&Connection { remote_description_set: false }));
}

#[test]
fn a_proctor_with_a_wallet_is_known_to_the_ledger() {
    let (server, _, room_id) = server_with_room(Some(0xa1));
    assert_eq!(server.wallets.get("p1"), Some(&Address::from_low_u64_be(0xa1)));
    let mut other = SfuServer::new("./recordings");
    let out = other.create_room(s("p1"), Some(s("Dr")), Some(Address::from_low_u64_be(0xa1))).unwrap();
    assert_eq!(
        out.1,
        vec![
            ServerAction::StartRecording { room_id: out.0.clone(), peer_id: s("p1") },
            ServerAction::Emit {
                event: ChainEvent::RoomCreated {
                    room_id: out.0.clone(),
                    proctor: Address::from_low_u64_be(0xa1),
                    proctor_name: Some(s("Dr")),
                },
            },
        ]
    );
    assert_eq!(
        server.recording_started(&room_id, "p1"),
        vec![ServerAction::Emit {
            event: ChainEvent::RecordingStarted {
                room_id: room_id.clone(),
                participant: Address::from_low_u64_be(0xa1),
            },
        }]
    );
    assert!(server.recording_started(&room_id, "s1").is_empty());
}

#[test]
fn a_second_room_of_the_same_proctor_is_refused() {
    let (mut server, mut handler, room_id) = server_with_room(None);
    let out = handler.handle_message(
        &mut server,
        SfuMessage::CreateRoom { peer_id: s("p1"), name: None, wallet: None },
    );
    assert_eq!(out, vec![reply_error("Failed to create room: Peer p1 already exists")]);
    assert_eq!(handler.room_id, Some(room_id));
}

#[test]
fn scenario_student_join_with_proctor_ready() {
    let (mut server, _, room_id) = server_with_room(None);
    assert_eq!(server.student_wait_step(&room_id, 0), StudentWait::Sleep { ms: 200, retries: 1 });
    server.track_manager.add_track(s("p1_video_cam"), s("p1"), video(77));
    assert!(server.handle_track_received("p1", "p1_video_cam").is_empty());
    assert!(server.is_proctor_ready(&room_id));
    assert_eq!(server.student_wait_step(&room_id, 0), StudentWait::Proceed { proctor_ready: true });
    let (handler, out) = join(&mut server, &room_id, "s1", None);
    assert_eq!(
        out,
        vec![
            ServerAction::StartRecording { room_id: room_id.clone(), peer_id: s("s1") },
            ServerAction::CreateConnection { peer_id: s("s1") },
            ServerAction::AddTrack {
                target_peer_id: s("s1"),
                sink: video_sink("p1_video_cam", "p1", "s1"),
            },
            ServerAction::SendPli { source_peer_id: s("p1"), sender_ssrc: 0, media_ssrc: 77 },
            ServerAction::SendOffer { peer_id: s("s1") },
            join_success(),
        ]
    );
    assert_eq!(handler.peer_id, Some(s("s1")));
    assert_eq!(handler.room_id, Some(room_id.clone()));
    assert!(server.room_manager.should_forward_track("p1", "s1"));
    assert!(server.room_manager.should_forward_track("s1", "p1"));
    assert!(!server.room_manager.should_forward_track("s1", "s1"));
    assert_eq!(server.get_tracks_for_peer("s1", &room_id), vec![s("p1_video_cam")]);
}

#[test]
fn scenario_invalid_room() {
    let (mut server, _, _) = server_with_room(None);
    let (handler, out) = join(&mut server, "999999", "s1", None);
    if server.room_manager.room_exists("999999") {
        return;
    }
    assert_eq!(out, vec![reply_error("Failed to join: Room 999999 not found")]);
    assert!(server.room_manager.get_peer("s1").is_none());
    assert!(!server.connections.contains_key("s1"));
    assert_eq!(handler.peer_id, Some(s("s1")));
}

#[test]
fn a_student_waits_fifteen_times_for_the_proctor() {
    let (server, _, room_id) = server_with_room(None);
    let mut retries = 0;
    let mut sleeps = 0;
    loop {
        match server.student_wait_step(&room_id, retries) {
            StudentWait::Sleep { ms, retries: next } => {
                assert_eq!(ms, 200);
                assert_eq!(next, retries + 1);
                retries = next;
                sleeps += 1;
            }
            StudentWait::Proceed { proctor_ready } => {
                assert!(!proctor_ready);
                break;
            }
        }
    }
    assert_eq!(sleeps, 15);
    assert_eq!(
        server.student_wait_step("000000", 15),
        StudentWait::Proceed { proctor_ready: false }
    );
    assert!(!server.is_proctor_ready("000000"));
}

#[test]
fn a_second_join_of_a_connected_peer_is_refused() {
    let (mut server, _, room_id) = server_with_room(None);
    let (_, first) = join(&mut server, &room_id, "s1", None);
    assert_eq!(first.last(), Some(&join_success()));
    let (_, again) = join(&mut server, &room_id, "s1", None);
    assert_eq!(again, vec![reply_error("Failed to join: Peer s1 already exists")]);
    assert_eq!(
        server.add_peer(s("s1"), room_id.clone()),
        Err(SfuError::PeerAlreadyExists(s("s1")))
    );
    assert_eq!(server.room_manager.get_room(&room_id).unwrap().students, vec![s("s1")]);
}

#[test]
fn a_student_with_a_wallet_is_known_to_the_ledger() {
    let (mut server, _, room_id) = server_with_room(Some(0xa1));
    let mut handler = SfuSignalingHandler::new();
    let out = handler.handle_message(
        &mut server,
        SfuMessage::Join {
            room_id: room_id.clone(),
            peer_id: s("s1"),
            name: Some(s("Ann")),
            role: s("student"),
            wallet: Some(wallet_text(0xb2)),
        },
    );
    assert_eq!(
        out[1],
        ServerAction::Emit {
            event: ChainEvent::ParticipantJoined {
                room_id: room_id.clone(),
                participant: Address::from_low_u64_be(0xb2),
                name: Some(s("Ann")),
                role: Role::Student,
            },
        }
    );
    assert_eq!(server.wallets.get("s1"), Some(&Address::from_low_u64_be(0xb2)));
    let (_, plain) = join(&mut server, &room_id, "s2", None);
    assert!(plain.iter().all(|a| !matches!(a, ServerAction::Emit { .. })));
    let mut odd = SfuSignalingHandler::new();
    odd.handle_message(
        &mut server,
        SfuMessage::Join {
            room_id: room_id.clone(),
            peer_id: s("s3"),
            name: None,
            role: s("student"),
            wallet: Some(s("not a wallet")),
        },
    );
    assert!(!server.wallets.contains_key("s3"));
    assert!(server.room_manager.get_peer("s3").is_some());
}

#[test]
fn scenario_ice_before_answer() {
    let (mut server, mut handler, _) = server_with_room(None);
    for (i, text) in ["candidate:a", "candidate:b", "candidate:c"].iter().enumerate() {
        let out = handler.handle_message(
            &mut server,
            SfuMessage::IceCandidate {
                peer_id: s("p1"),
                candidate: s(text),
                sdp_mid: Some(s("0")),
                sdp_mline_index: Some(i as u16),
            },
        );
        assert!(out.is_empty());
    }
    assert_eq!(server.pending_ice_candidates.len(), 3);
    let answered = handler.handle_message(
        &mut server,
        SfuMessage::Answer { peer_id: s("p1"), sdp: s(VALID_SDP) },
    );
    assert_eq!(
        answered,
        vec![ServerAction::SetRemoteAnswer { peer_id: s("p1"), sdp: s(VALID_SDP) }]
    );
    assert_eq!(server.pending_ice_candidates.len(), 3);
    let replayed = server.flush_pending_ice_candidates("p1");
    let candidate = |text: &str, index: u16| ServerAction::AddIceCandidate {
        peer_id: s("p1"),
        candidate: IceCandidate {
            candidate: s(text),
            sdp_mid: Some(s("0")),
            sdp_mline_index: Some(index),
        },
    };
    assert_eq!(
        replayed,
        vec![candidate("candidate:a", 0), candidate("candidate:b", 1), candidate("candidate:c", 2)]
    );
    assert!(server.pending_ice_candidates.is_empty());
    assert_eq!(server.connections.get("p1"), Some(&Connection { remote_description_set: true }));
    let late = server.handle_ice_candidate("p1", "candidate:d", Some(s("0")), Some(3));
    assert_eq!(late, vec![candidate("candidate:d", 3)]);
    assert!(server.pending_ice_candidates.is_empty());
    assert!(server.flush_pending_ice_candidates("p1").is_empty());
}

#[test]
fn candidates_wait_for_their_own_peer() {
    let (mut server, _, room_id) = server_with_room(None);
    join(&mut server, &room_id, "s1", None);
    server.handle_ice_candidate("p1", "a", None, None);
    server.handle_ice_candidate("s1", "b", None, None);
    server.handle_ice_candidate("p1", "c", None, None);
    assert!(server.handle_ice_candidate("nobody", "x", None, None).is_empty());
    assert_eq!(server.pending_ice_candidates.len(), 3);
    let replayed = server.flush_pending_ice_candidates("p1");
    let texts: Vec<String> = replayed
        .iter()
        .map(|a| match a {
            ServerAction::AddIceCandidate { peer_id, candidate } => {
                assert_eq!(peer_id, "p1");
                candidate.candidate.clone()
            }
            other => panic!("unexpected {:?}", other),
        })
        .collect();
    assert_eq!(texts, vec![s("a"), s("c")]);
    assert_eq!(server.pending_ice_candidates.len(), 1);
    assert_eq!(server.pending_ice_candidates[0].peer_id, "s1");
    assert!(server.flush_pending_ice_candidates("nobody").is_empty());
    assert_eq!(server.pending_ice_candidates.len(), 1);
}

#[test]
fn an_answer_that_does_not_parse_is_refused() {
    let (mut server, mut handler, _) = server_with_room(None);
    let out = handler.handle_message(
        &mut server,
        SfuMessage::Answer { peer_id: s("p1"), sdp: s("this is no session description") },
    );
    assert_eq!(out.len(), 1);
    match &out[0] {
        ServerAction::Reply { message: SfuMessage::Error { message } } => {
            assert!(
                message.starts_with(
                    "Failed to process answer: Invalid SDP format: Failed to parse answer SDP: "
                ),
                "{}",
                message
            );
            assert!(message.len() > 74);
        }
        other => panic!("unexpected {:?}", other),
    }
    match server.handle_answer("p1", "") {
        Err(SfuError::InvalidSdp(words)) => {
            assert!(words.starts_with("Failed to parse answer SDP: "))
        }
        other => panic!("unexpected {:?}", other),
    }
    assert_eq!(server.handle_answer("nobody", "garbage"), Ok(vec![]));
    assert_eq!(
        server.handle_checked_answer("p1", "x", Some(s("bad line"))),
        Err(SfuError::InvalidSdp(s("Failed to parse answer SDP: bad line")))
    );
    assert_eq!(
        server.handle_checked_answer("p1", "x", None),
        Ok(vec![ServerAction::SetRemoteAnswer { peer_id: s("p1"), sdp: s("x") }])
    );
    assert_eq!(server.handle_checked_answer("nobody", "x", Some(s("bad line"))), Ok(vec![]));
}

#[test]
fn scenario_batched_renegotiation() {
    let (mut server, _, room_id) = server_with_room(None);
    for student in ["s1", "s2", "s3", "s4"] {
        join(&mut server, &room_id, student, None);
    }
    let mut scheduled = Vec::new();
    for (i, student) in ["s1", "s2", "s3", "s4"].iter().enumerate() {
        let id = format!("{}_video_cam", student);
        server.track_manager.add_track(id.clone(), s(student), video(100 + i as u32));
        let out = server.handle_track_received(student, &id);
        let mut expected = vec![
            ServerAction::AddTrack {
                target_peer_id: s("p1"),
                sink: video_sink(&id, student, "p1"),
            },
            ServerAction::SendPli {
                source_peer_id: s(student),
                sender_ssrc: 0,
                media_ssrc: 100 + i as u32,
            },
        ];
        if i == 0 {
            expected.push(ServerAction::ScheduleRenegotiation { peer_id: s("p1"), delay_ms: 150 });
        }
        assert_eq!(out, expected);
        scheduled.extend(
            out.into_iter().filter(|a| matches!(a, ServerAction::ScheduleRenegotiation { .. })),
        );
    }
    assert_eq!(scheduled.len(), 1);
    assert_eq!(server.pending_renegotiations.get("p1"), Some(&true));
    assert_eq!(server.perform_renegotiation("p1", 0, true), RenegotiationStep::SendOffer);
    assert!(!server.pending_renegotiations.contains_key("p1"));
    let sinks: Vec<String> = ["s1", "s2", "s3", "s4"]
        .iter()
        .map(|t| format!("{}_video_cam", t))
        .filter(|id| {
            server.track_manager.get_track(id).unwrap().local_tracks
                == vec![video_sink(id, &id[..2], "p1")]
        })
        .collect();
    assert_eq!(sinks.len(), 4);
    server.track_manager.add_track(s("s1_audio_mic"), s("s1"), audio(200));
    let next = server.handle_track_received("s1", "s1_audio_mic");
    assert_eq!(
        next,
        vec![
            ServerAction::AddTrack {
                target_peer_id: s("p1"),
                sink: audio_sink("s1_audio_mic", "s1", "p1"),
            },
            ServerAction::ScheduleRenegotiation { peer_id: s("p1"), delay_ms: 150 },
        ]
    );
    assert_eq!(server.peers_with_tracks.get("s1"), Some(&2));
    assert_eq!(server.peers_with_tracks.get("s2"), Some(&1));
}

#[test]
fn a_track_of_the_proctor_goes_to_every_student() {
    let (mut server, _, room_id) = server_with_room(None);
    join(&mut server, &room_id, "s1", None);
    join(&mut server, &room_id, "s2", None);
    server.track_manager.add_track(s("p1_video_cam"), s("p1"), video(5));
    let out = server.handle_track_received("p1", "p1_video_cam");
    assert_eq!(
        out,
        vec![
            ServerAction::AddTrack { target_peer_id: s("s1"), sink: video_sink("p1_video_cam", "p1", "s1") },
            ServerAction::SendPli { source_peer_id: s("p1"), sender_ssrc: 0, media_ssrc: 5 },
            ServerAction::ScheduleRenegotiation { peer_id: s("s1"), delay_ms: 150 },
            ServerAction::AddTrack { target_peer_id: s("s2"), sink: video_sink("p1_video_cam", "p1", "s2") },
            ServerAction::SendPli { source_peer_id: s("p1"), sender_ssrc: 0, media_ssrc: 5 },
            ServerAction::ScheduleRenegotiation { peer_id: s("s2"), delay_ms: 150 },
        ]
    );
    server.track_manager.add_track(s("s1_video_cam"), s("s1"), video(6));
    let from_student = server.handle_track_received("s1", "s1_video_cam");
    assert_eq!(from_student.len(), 3);
    assert!(from_student.iter().all(|a| match a {
        ServerAction::AddTrack { target_peer_id, .. } => target_peer_id == "p1",
        ServerAction::SendPli { source_peer_id, .. } => source_peer_id == "s1",
        ServerAction::ScheduleRenegotiation { peer_id, .. } => peer_id == "p1",
        _ => false,
    }));
    assert!(server.handle_track_received("s1", "unknown_track").is_empty());
    assert_eq!(server.peers_with_tracks.get("s1"), Some(&2));
}

#[test]
fn a_busy_connection_defers_the_renegotiation() {
    let (mut server, _, _) = server_with_room(None);
    assert_eq!(
        server.perform_renegotiation("p1", 0, false),
        RenegotiationStep::Deferred { retry_delay_ms: 200 }
    );
    assert_eq!(
        server.perform_renegotiation("p1", 1, false),
        RenegotiationStep::Deferred { retry_delay_ms: 400 }
    );
    assert_eq!(
        server.perform_renegotiation("p1", 2, false),
        RenegotiationStep::Deferred { retry_delay_ms: 800 }
    );
    assert_eq!(server.perform_renegotiation("p1", 3, false), RenegotiationStep::GivenUp);
    assert_eq!(server.perform_renegotiation("p1", 3, true), RenegotiationStep::SendOffer);
    assert_eq!(server.perform_renegotiation("gone", 0, true), RenegotiationStep::NoConnection);
    server.pending_renegotiations.insert(s("p1"), true);
    server.perform_renegotiation("p1", 1, false);
    assert!(server.pending_renegotiations.contains_key("p1"));
    server.perform_renegotiation("p1", 0, false);
    assert!(!server.pending_renegotiations.contains_key("p1"));
}

#[test]
fn scenario_proctor_leave_cascade() {
    let (mut server, mut proctor, room_id) = server_with_room(Some(0xa1));
    join(&mut server, &room_id, "s1", Some(0xb1));
    join(&mut server, &room_id, "s2", Some(0xb2));
    server.track_manager.add_track(s("p1_video_cam"), s("p1"), video(5));
    server.handle_track_received("p1", "p1_video_cam");
    server.handle_ice_candidate("s1", "a", None, None);
    let out = proctor.cleanup(&mut server);
    let departure = Departure {
        peer_id: s("p1"),
        room_id: room_id.clone(),
        role: PeerRole::Proctor,
        name: Some(s("Dr")),
        wallet: Some(Address::from_low_u64_be(0xa1)),
        grade: None,
        proctor_to_tell: None,
        evicted: vec![
            EvictedStudent {
                peer_id: s("s1"),
                wallet: Some(Address::from_low_u64_be(0xb1)),
                connected: true,
            },
            EvictedStudent {
                peer_id: s("s2"),
                wallet: Some(Address::from_low_u64_be(0xb2)),
                connected: true,
            },
        ],
    };
    assert_eq!(
        out,
        vec![
            ServerAction::CloseConnection { peer_id: s("p1") },
            ServerAction::StopRoomRecordings { room_id: room_id.clone() },
            ServerAction::AwaitRecordings { departure: departure.clone() },
        ]
    );
    let stopped = vec![
        StoppedRecording { peer_id: s("p1"), duration_secs: 60, ipfs_cid: Some(s("QmP")) },
        StoppedRecording { peer_id: s("s1"), duration_secs: 50, ipfs_cid: Some(s("QmA")) },
        StoppedRecording { peer_id: s("s2"), duration_secs: 40, ipfs_cid: None },
    ];
    let emit = |event: ChainEvent| ServerAction::Emit { event };
    assert_eq!(
        departure_actions(&departure, &stopped),
        vec![
            emit(ChainEvent::RecordingStopped {
                room_id: room_id.clone(),
                participant: Address::from_low_u64_be(0xa1),
                duration_secs: 60,
                ipfs_cid: Some(s("QmP")),
            }),
            emit(ChainEvent::RecordingStopped {
                room_id: room_id.clone(),
                participant: Address::from_low_u64_be(0xb1),
                duration_secs: 50,
                ipfs_cid: Some(s("QmA")),
            }),
            emit(ChainEvent::RecordingStopped {
                room_id: room_id.clone(),
                participant: Address::from_low_u64_be(0xb2),
                duration_secs: 40,
                ipfs_cid: None,
            }),
            emit(ChainEvent::ParticipantLeft {
                room_id: room_id.clone(),
                participant: Address::from_low_u64_be(0xa1),
                reason: LeaveReason::ProctorLeft,
            }),
            emit(ChainEvent::ParticipantLeft {
                room_id: room_id.clone(),
                participant: Address::from_low_u64_be(0xb1),
                reason: LeaveReason::RoomClosed,
            }),
            emit(ChainEvent::ParticipantLeft {
                room_id: room_id.clone(),
                participant: Address::from_low_u64_be(0xb2),
                reason: LeaveReason::RoomClosed,
            }),
            emit(ChainEvent::RoomClosed {
                room_id: room_id.clone(),
                reason: RoomCloseReason::ProctorLeft,
            }),
            ServerAction::CloseConnection { peer_id: s("s1") },
            ServerAction::CloseConnection { peer_id: s("s2") },
        ]
    );
    assert!(server.room_manager.get_peer("s1").is_none());
    assert!(server.room_manager.get_peer("s2").is_none());
    assert!(server.room_manager.get_peer("p1").is_none());
    assert!(!server.room_manager.room_exists(&room_id));
    assert_eq!(server.connections.len(), 0);
    assert_eq!(server.track_manager.track_count(), 0);
    assert_eq!(server.wallets.len(), 0);
    assert!(server.pending_ice_candidates.is_empty());
    assert_eq!(server.pending_renegotiations.len(), 0);
    assert!(proctor.cleanup(&mut server).is_empty());
}

#[test]
fn a_leaving_student_is_told_to_the_proctor() {
    let (mut server, mut proctor, room_id) = server_with_room(Some(0xa1));
    let (mut student, _) = join(&mut server, &room_id, "s1", Some(0xb1));
    join(&mut server, &room_id, "s2", None);
    let graded = proctor.handle_message(
        &mut server,
        SfuMessage::SubmitExamResult {
            room_id: room_id.clone(),
            peer_id: s("s1"),
            score: 7,
            total: 8,
            exam_name: Some(s("Final")),
        },
    );
    assert_eq!(graded, vec![ServerAction::Reply { message: SfuMessage::ExamResultSubmitted { grade: 8750 } }]);
    assert_eq!(
        server.grades.get("s1"),
        Some(&ExamGrade { grade_basis_points: 8750, exam_name: Some(s("Final")) })
    );
    server.track_manager.add_track(s("s1_video_cam"), s("s1"), video(5));
    server.handle_track_received("s1", "s1_video_cam");
    let out = student.handle_message(&mut server, SfuMessage::Leave { peer_id: s("s1") });
    let departure = Departure {
        peer_id: s("s1"),
        room_id: room_id.clone(),
        role: PeerRole::Student,
        name: None,
        wallet: Some(Address::from_low_u64_be(0xb1)),
        grade: Some(ExamGrade { grade_basis_points: 8750, exam_name: Some(s("Final")) }),
        proctor_to_tell: Some(s("p1")),
        evicted: vec![],
    };
    assert_eq!(
        out,
        vec![
            ServerAction::CloseConnection { peer_id: s("s1") },
            ServerAction::StopRecording { room_id: room_id.clone(), peer_id: s("s1") },
            ServerAction::AwaitRecordings { departure: departure.clone() },
        ]
    );
    assert_eq!(student.peer_id, None);
    assert_eq!(student.room_id, None);
    let stopped =
        vec![StoppedRecording { peer_id: s("s1"), duration_secs: 30, ipfs_cid: Some(s("QmA")) }];
    assert_eq!(
        departure_actions(&departure, &stopped),
        vec![
            ServerAction::Emit {
                event: ChainEvent::CreateExamResult {
                    room_id: room_id.clone(),
                    participant: Address::from_low_u64_be(0xb1),
                    grade: 8750,
                    exam_name: s("Final"),
                },
            },
            ServerAction::Emit {
                event: ChainEvent::RecordingStopped {
                    room_id: room_id.clone(),
                    participant: Address::from_low_u64_be(0xb1),
                    duration_secs: 30,
                    ipfs_cid: Some(s("QmA")),
                },
            },
            ServerAction::Emit {
                event: ChainEvent::ParticipantLeft {
                    room_id: room_id.clone(),
                    participant: Address::from_low_u64_be(0xb1),
                    reason: LeaveReason::Normal,
                },
            },
            ServerAction::Notify {
                peer_id: s("p1"),
                message: SfuMessage::ParticipantLeft {
                    room_id: room_id.clone(),
                    peer_id: s("s1"),
                    name: None,
                },
            },
        ]
    );
    assert!(server.room_manager.room_exists(&room_id));
    assert!(server.room_manager.get_peer("s2").is_some());
    assert!(server.track_manager.get_track("s1_video_cam").is_none());
    assert!(!server.grades.contains_key("s1"));
    assert!(!server.wallets.contains_key("s1"));
    assert!(server.wallets.contains_key("p1"));
    let again = student.handle_message(&mut server, SfuMessage::Leave { peer_id: s("s1") });
    assert!(again.is_empty());
}

#[test]
fn a_departure_without_wallets_is_silent_on_the_ledger() {
    let departure = Departure {
        peer_id: s("p1"),
        room_id: s("123456"),
        role: PeerRole::Proctor,
        name: None,
        wallet: None,
        grade: None,
        proctor_to_tell: None,
        evicted: vec![
            EvictedStudent { peer_id: s("s1"), wallet: None, connected: false },
            EvictedStudent { peer_id: s("s2"), wallet: None, connected: true },
        ],
    };
    let stopped = vec![StoppedRecording { peer_id: s("s1"), duration_secs: 1, ipfs_cid: None }];
    assert_eq!(
        departure_actions(&departure, &stopped),
        vec![ServerAction::CloseConnection { peer_id: s("s2") }]
    );
    let student = Departure {
        peer_id: s("s1"),
        room_id: s("123456"),
        role: PeerRole::Student,
        name: None,
        wallet: None,
        grade: Some(ExamGrade { grade_basis_points: 1, exam_name: None }),
        proctor_to_tell: None,
        evicted: vec![],
    };
    assert!(departure_actions(&student, &stopped).is_empty());
    let unnamed = Departure { wallet: Some(Address::zero()), ..student };
    assert_eq!(
        departure_actions(&unnamed, &vec![])[0],
        ServerAction::Emit {
            event: ChainEvent::CreateExamResult {
                room_id: s("123456"),
                participant: Address::zero(),
                grade: 1,
                exam_name: s(""),
            },
        }
    );
}

#[test]
fn requests_for_admission_go_to_the_proctor() {
    let (mut server, mut proctor, room_id) = server_with_room(None);
    let mut student = SfuSignalingHandler::new();
    let out = student.handle_message(
        &mut server,
        SfuMessage::JoinRequest {
            room_id: room_id.clone(),
            peer_id: s("s1"),
            name: Some(s("Ann")),
            role: s("student"),
            wallet: Some(wallet_text(5)),
        },
    );
    assert_eq!(
        out,
        vec![
            ServerAction::Notify {
                peer_id: s("p1"),
                message: SfuMessage::JoinRequest {
                    room_id: room_id.clone(),
                    peer_id: s("s1"),
                    name: Some(s("Ann")),
                    role: s("student"),
                    wallet: Some(wallet_text(5)),
                },
            },
            ServerAction::Reply {
                message: SfuMessage::JoinRequestSent {
                    message: s("Join request sent to proctor. Waiting for approval..."),
                },
            },
        ]
    );
    assert!(server.pending_students.contains_key("s1"));
    assert_eq!(server.pending_students.get("s1").unwrap().wallet, Some(Address::from_low_u64_be(5)));
    let approved = proctor.handle_message(
        &mut server,
        SfuMessage::JoinResponse {
            room_id: room_id.clone(),
            peer_id: s("p1"),
            approved: true,
            requester_peer_id: s("s1"),
        },
    );
    assert_eq!(
        approved,
        vec![ServerAction::Notify {
            peer_id: s("s1"),
            message: SfuMessage::JoinApproved {
                room_id: room_id.clone(),
                message: s("Join request approved! Connecting to room..."),
            },
        }]
    );
    let denied = proctor.handle_message(
        &mut server,
        SfuMessage::JoinResponse {
            room_id: room_id.clone(),
            peer_id: s("p1"),
            approved: false,
            requester_peer_id: s("s1"),
        },
    );
    assert_eq!(
        denied,
        vec![ServerAction::Notify {
            peer_id: s("s1"),
            message: SfuMessage::JoinDenied {
                room_id: room_id.clone(),
                message: s("Join request denied by proctor"),
            },
        }]
    );
    let unknown = proctor.handle_message(
        &mut server,
        SfuMessage::JoinResponse {
            room_id: room_id.clone(),
            peer_id: s("p1"),
            approved: true,
            requester_peer_id: s("s9"),
        },
    );
    assert_eq!(unknown, vec![reply_error("Failed to send join response: Peer s9 not found")]);
    let (_, joined) = join(&mut server, &room_id, "s1", None);
    assert_eq!(joined.last(), Some(&join_success()));
    assert!(!server.pending_students.contains_key("s1"));
}

#[test]
fn a_request_without_proctor_is_answered_with_an_error() {
    let mut server = SfuServer::new("./recordings");
    let mut student = SfuSignalingHandler::new();
    let out = student.handle_message(
        &mut server,
        SfuMessage::JoinRequest {
            room_id: s("123456"),
            peer_id: s("s1"),
            name: None,
            role: s("student"),
            wallet: None,
        },
    );
    assert_eq!(out, vec![reply_error("Failed to send join request: No proctor for room 123456")]);
    assert!(server.pending_students.contains_key("s1"));
    student.cleanup(&mut server);
    assert!(!server.pending_students.contains_key("s1"));
}

#[test]
fn recordings_are_asked_of_the_sidecar() {
    let (mut server, mut proctor, room_id) = server_with_room(None);
    let before = server.connections.len();
    let r = || room_id.clone();
    assert_eq!(
        proctor.handle_message(&mut server, SfuMessage::StartRecording { room_id: r(), peer_id: s("s1") }),
        vec![ServerAction::StartRecording { room_id: r(), peer_id: s("s1") }]
    );
    assert_eq!(
        proctor.handle_message(&mut server, SfuMessage::StopRecording { room_id: r(), peer_id: s("s1") }),
        vec![ServerAction::StopRecording { room_id: r(), peer_id: s("s1") }]
    );
    assert_eq!(
        proctor.handle_message(&mut server, SfuMessage::StopAllRecordings { room_id: r() }),
        vec![ServerAction::StopRoomRecordings { room_id: r() }]
    );
    assert_eq!(
        proctor.handle_message(&mut server, SfuMessage::GetRecordingStatus { room_id: r() }),
        vec![ServerAction::ReportRecordingStatus { room_id: r() }]
    );
    assert!(proctor
        .handle_message(
            &mut server,
            SfuMessage::MediaReady { peer_id: s("p1"), has_video: true, has_audio: true }
        )
        .is_empty());
    assert!(proctor.handle_message(&mut server, SfuMessage::Offer { sdp: s("v=0"), peer_id: s("sfu") }).is_empty());
    assert!(proctor.handle_message(&mut server, SfuMessage::RoomCreated { room_id: r() }).is_empty());
    assert_eq!(server.connections.len(), before);
}

#[test]
fn the_server_keeps_the_table_of_recordings() {
    let mut server = SfuServer::new("/rec");
    assert_eq!(server.start_recording("123456", "p1", 1700), Ok(s("/rec/123456/p1_1700.webm")));
    assert!(server.start_recording("123456", "p1", 1701).is_err());
    assert_eq!(server.start_recording("123456", "s1", 1702), Ok(s("/rec/123456/s1_1702.webm")));
    assert!(server.is_peer_recording("123456", "p1"));
    assert!(!server.is_peer_recording("123456", "s2"));
    assert_eq!(server.get_recording_peers("123456"), vec![s("p1"), s("s1")]);
    assert!(server.get_recording_manager().is_room_recording("123456"));
    let stopped = server.stop_recording("123456", "p1").unwrap();
    assert_eq!(stopped.output_path, "/rec/123456/p1_1700.webm");
    assert!(server.stop_recording("123456", "p1").is_err());
    assert_eq!(server.stop_all_recordings("123456").len(), 1);
    assert!(server.get_recording_peers("123456").is_empty());
}

#[test]
fn only_the_proctor_removes_participants() {
    let (mut server, mut proctor, room_id) = server_with_room(Some(0xa1));
    let (mut student, _) = join(&mut server, &room_id, "s1", Some(0xb1));
    join(&mut server, &room_id, "s2", None);
    let kick = |peer: &str| SfuMessage::KickParticipant {
        room_id: room_id.clone(),
        peer_id: s(peer),
        reason: Some(s("cheating")),
    };
    assert_eq!(
        student.handle_message(&mut server, kick("s2")),
        vec![reply_error("Peer s1 not authorized for this operation")]
    );
    assert_eq!(
        SfuSignalingHandler::new().handle_message(&mut server, kick("s2")),
        vec![reply_error("Peer  not authorized for this operation")]
    );
    assert_eq!(
        proctor.handle_message(&mut server, kick("p1")),
        vec![reply_error("Peer p1 not authorized for this operation")]
    );
    assert_eq!(
        proctor.handle_message(&mut server, kick("nobody")),
        vec![reply_error("Peer p1 not authorized for this operation")]
    );
    assert!(server.room_manager.get_peer("s2").is_some());
    let out = proctor.handle_message(&mut server, kick("s1"));
    assert_eq!(out.len(), 5);
    assert_eq!(
        out[0],
        ServerAction::Notify {
            peer_id: s("s1"),
            message: SfuMessage::ParticipantKicked {
                room_id: room_id.clone(),
                peer_id: s("s1"),
                reason: Some(s("cheating")),
            },
        }
    );
    assert_eq!(
        out[1],
        ServerAction::Emit {
            event: ChainEvent::ParticipantKicked {
                room_id: room_id.clone(),
                proctor: Address::from_low_u64_be(0xa1),
                kicked: Address::from_low_u64_be(0xb1),
                reason: Some(s("cheating")),
            },
        }
    );
    assert_eq!(out[2], ServerAction::CloseConnection { peer_id: s("s1") });
    assert_eq!(out[3], ServerAction::StopRecording { room_id: room_id.clone(), peer_id: s("s1") });
    assert!(matches!(&out[4], ServerAction::AwaitRecordings { departure } if departure.peer_id == "s1"));
    assert!(server.room_manager.get_peer("s1").is_none());
    let quiet = proctor.handle_message(&mut server, kick("s2"));
    assert_eq!(quiet.len(), 4);
    assert!(quiet.iter().all(|a| !matches!(a, ServerAction::Emit { .. })));
}

#[test]
fn identity_checks_go_to_the_participant_and_to_the_ledger() {
    let (mut server, mut proctor, room_id) = server_with_room(Some(0xa1));
    let (mut student, _) = join(&mut server, &room_id, "s1", Some(0xb1));
    join(&mut server, &room_id, "s2", None);
    let out = proctor.handle_message(
        &mut server,
        SfuMessage::StartIdVerification { room_id: room_id.clone(), peer_id: s("s1") },
    );
    assert_eq!(
        out,
        vec![
            ServerAction::Notify {
                peer_id: s("s1"),
                message: SfuMessage::StartIdVerification {
                    room_id: room_id.clone(),
                    peer_id: s("s1"),
                },
            },
            ServerAction::Emit {
                event: ChainEvent::IdVerification {
                    room_id: room_id.clone(),
                    participant: Address::from_low_u64_be(0xb1),
                    status: VerificationStatus::Pending,
                    verified_by: s("p1"),
                },
            },
        ]
    );
    let verdict = proctor.handle_message(
        &mut server,
        SfuMessage::IdVerificationResult {
            room_id: room_id.clone(),
            peer_id: s("s1"),
            status: s("valid"),
        },
    );
    assert_eq!(
        verdict,
        vec![
            ServerAction::Notify {
                peer_id: s("s1"),
                message: SfuMessage::IdVerificationStatus { status: s("valid") },
            },
            ServerAction::Emit {
                event: ChainEvent::IdVerification {
                    room_id: room_id.clone(),
                    participant: Address::from_low_u64_be(0xb1),
                    status: VerificationStatus::Valid,
                    verified_by: s("p1"),
                },
            },
        ]
    );
    let plain = proctor.handle_message(
        &mut server,
        SfuMessage::IdVerificationResult {
            room_id: room_id.clone(),
            peer_id: s("s2"),
            status: s("skipped"),
        },
    );
    assert_eq!(
        plain,
        vec![ServerAction::Notify {
            peer_id: s("s2"),
            message: SfuMessage::IdVerificationStatus { status: s("skipped") },
        }]
    );
    let refused = student.handle_message(
        &mut server,
        SfuMessage::StartIdVerification { room_id: room_id.clone(), peer_id: s("s2") },
    );
    assert_eq!(refused, vec![reply_error("Peer s1 not authorized for this operation")]);
    assert_eq!(parse_status("valid"), VerificationStatus::Valid);
    assert_eq!(parse_status("invalid"), VerificationStatus::Invalid);
    assert_eq!(parse_status("pending"), VerificationStatus::Pending);
    assert_eq!(parse_status("skipped"), VerificationStatus::Skipped);
    assert_eq!(parse_status("Valid"), VerificationStatus::Invalid);
    assert_eq!(parse_status(""), VerificationStatus::Invalid);
}

#[test]
fn suspicious_activity_goes_to_the_ledger() {
    let (mut server, _, room_id) = server_with_room(None);
    let (mut student, _) = join(&mut server, &room_id, "s1", Some(0xb1));
    let report = |peer: &str, kind: &str| SfuMessage::ReportSuspiciousActivity {
        room_id: room_id.clone(),
        peer_id: s(peer),
        activity_type: s(kind),
        details: Some(s("twice")),
    };
    let acknowledged = ServerAction::Reply { message: SfuMessage::SuspiciousActivityReported };
    assert_eq!(
        student.handle_message(&mut server, report("s1", "tab_switch")),
        vec![
            ServerAction::Emit {
                event: ChainEvent::SuspiciousActivity {
                    room_id: room_id.clone(),
                    participant: Address::from_low_u64_be(0xb1),
                    activity_type: SuspiciousActivityType::TabSwitch,
                    details: Some(s("twice")),
                },
            },
            acknowledged.clone(),
        ]
    );
    assert_eq!(student.handle_message(&mut server, report("p1", "tab_switch")), vec![acknowledged]);
    assert_eq!(parse_activity("multiple_devices"), SuspiciousActivityType::MultipleDevices);
    assert_eq!(parse_activity("tab_switch"), SuspiciousActivityType::TabSwitch);
    assert_eq!(parse_activity("window_blur"), SuspiciousActivityType::WindowBlur);
    assert_eq!(parse_activity("screen_share"), SuspiciousActivityType::ScreenShare);
    assert_eq!(parse_activity("unauthorized_person"), SuspiciousActivityType::UnauthorizedPerson);
    assert_eq!(parse_activity("audio_anomaly"), SuspiciousActivityType::AudioAnomaly);
    assert_eq!(parse_activity("other"), SuspiciousActivityType::Other);
    assert_eq!(parse_activity("anything"), SuspiciousActivityType::Other);
}

#[test]
fn a_grade_for_a_peer_that_left_is_dropped() {
    let (mut server, mut proctor, room_id) = server_with_room(None);
    let out = proctor.handle_message(
        &mut server,
        SfuMessage::SubmitExamResult {
            room_id: room_id.clone(),
            peer_id: s("gone"),
            score: 1,
            total: 0,
            exam_name: None,
        },
    );
    assert_eq!(out, vec![ServerAction::Reply { message: SfuMessage::ExamResultSubmitted { grade: 0 } }]);
    assert_eq!(server.grades.len(), 0);
}

#[test]
fn the_end_of_a_socket_takes_its_peer_out() {
    let (mut server, _, room_id) = server_with_room(None);
    let (mut student, _) = join(&mut server, &room_id, "s1", None);
    let out = student.cleanup(&mut server);
    assert_eq!(out.len(), 3);
    assert_eq!(out[0], ServerAction::CloseConnection { peer_id: s("s1") });
    assert!(server.room_manager.get_peer("s1").is_none());
    assert_eq!(student.peer_id, Some(s("s1")));
    assert!(student.cleanup(&mut server).is_empty());
    assert!(SfuSignalingHandler::new().cleanup(&mut server).is_empty());
}

#[test]
fn requests_about_recordings_are_answered() {
    assert_eq!(
        recording_started_reply(s("r"), s("p"), None),
        SfuMessage::RecordingStarted { room_id: s("r"), peer_id: s("p") }
    );
    assert_eq!(
        recording_started_reply(s("r"), s("p"), Some(s("no disk"))),
        SfuMessage::RecordingError { room_id: s("r"), peer_id: Some(s("p")), error: s("no disk") }
    );
    let stored = recording_info(s("p"), s("/rec/r/p_1.webm"), Some((s("Qm"), s("http://g/Qm"))));
    assert_eq!(
        stored,
        RecordingInfo {
            peer_id: s("p"),
            file_path: Some(s("/rec/r/p_1.webm")),
            cid: Some(s("Qm")),
            ipfs_gateway_url: Some(s("http://g/Qm")),
        }
    );
    let plain = recording_info(s("q"), s("/rec/r/q_2.webm"), None);
    assert_eq!(plain.cid, None);
    assert_eq!(plain.ipfs_gateway_url, None);
    assert_eq!(
        recording_stopped_reply(s("r"), Ok(stored.clone())),
        SfuMessage::RecordingStopped {
            room_id: s("r"),
            peer_id: s("p"),
            file_path: Some(s("/rec/r/p_1.webm")),
            cid: Some(s("Qm")),
            ipfs_gateway_url: Some(s("http://g/Qm")),
        }
    );
    assert_eq!(
        recording_stopped_reply(s("r"), Err((s("p"), s("gone")))),
        SfuMessage::RecordingError { room_id: s("r"), peer_id: Some(s("p")), error: s("gone") }
    );
    assert_eq!(
        all_recordings_stopped_reply(s("r"), vec![stored.clone(), plain.clone()]),
        SfuMessage::AllRecordingsStopped { room_id: s("r"), recordings: vec![stored, plain] }
    );
    assert_eq!(
        recording_status_reply(s("r"), vec![s("p"), s("q")]),
        SfuMessage::RecordingStatus { room_id: s("r"), recording_peers: vec![s("p"), s("q")] }
    );
}

#[test]
fn nothing_is_kept_of_a_peer_that_left() {
    let (mut server, _, room_id) = server_with_room(None);
    server.track_manager.add_track(s("p1_video_cam"), s("p1"), video(5));
    server.handle_track_received("p1", "p1_video_cam");
    let (mut student, _) = join(&mut server, &room_id, "s1", Some(0xb1));
    join(&mut server, &room_id, "s2", None);
    server.track_manager.add_track(s("s1_video_cam"), s("s1"), video(6));
    server.handle_track_received("s1", "s1_video_cam");
    server.handle_ice_candidate("s1", "a", None, None);
    assert_eq!(server.track_manager.get_track("p1_video_cam").unwrap().local_tracks.len(), 2);
    student.handle_message(&mut server, SfuMessage::Leave { peer_id: s("s1") });
    assert_eq!(
        server.track_manager.get_track("p1_video_cam").unwrap().local_tracks,
        vec![video_sink("p1_video_cam", "p1", "s2")]
    );
    assert!(server.track_manager.get_track("s1_video_cam").is_none());
    assert!(!server.connections.contains_key("s1"));
    assert!(!server.wallets.contains_key("s1"));
    assert!(!server.pending_renegotiations.contains_key("s1"));
    assert!(server.pending_ice_candidates.is_empty());
    assert!(server.connections.contains_key("s2"));
    assert!(server.connections.contains_key("p1"));
}
