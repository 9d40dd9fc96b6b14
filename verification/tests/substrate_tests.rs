use primitive_types::H160;
use sfu_server::error::SfuError;
use sfu_server::substrate::client::{
    after_failure, classify_error, retry_delay_secs, ContractCall, ContractClient, ErrorClass,
    LeaveReason, RetryStep, Role, RoomCloseReason, SuspiciousActivityType, VerificationStatus,
};
use sfu_server::substrate::config::{
    AssetHubConfig, DEFAULT_ASSET_HUB_RPC_URL, DEFAULT_GAS_LIMIT, DEFAULT_RETRY_COUNT,
    DEFAULT_SUBMISSION_TIMEOUT_SECS,
};
use sfu_server::substrate::queue::{ChainEvent, EventQueue, TransactionTracker, TX_DELAY_MS};
use sfu_server::substrate::{parse_address, Address};
use std::str::FromStr;

#[test]
fn test_role_values() {
    assert_eq!(Role::Proctor as u8, 0);
    assert_eq!(Role::Student as u8, 1);
}

#[test]
fn test_leave_reason_values() {
    assert_eq!(LeaveReason::Normal as u8, 0);
    assert_eq!(LeaveReason::Kicked as u8, 1);
    assert_eq!(LeaveReason::Disconnected as u8, 2);
    assert_eq!(LeaveReason::RoomClosed as u8, 3);
}

#[test]
fn test_suspicious_activity_type_values() {
    assert_eq!(SuspiciousActivityType::MultipleDevices as u8, 0);
    assert_eq!(SuspiciousActivityType::TabSwitch as u8, 1);
    assert_eq!(SuspiciousActivityType::Other as u8, 6);
}

#[test]
fn codes_are_the_numbers_of_the_ledger() {
    assert_eq!(Role::Proctor.code(), 0);
    assert_eq!(Role::Student.code(), 1);
    assert_eq!(LeaveReason::Normal.code(), 0);
    assert_eq!(LeaveReason::Kicked.code(), 1);
    assert_eq!(LeaveReason::Disconnected.code(), 2);
    assert_eq!(LeaveReason::RoomClosed.code(), 3);
    assert_eq!(LeaveReason::ProctorLeft.code(), 4);
    assert_eq!(VerificationStatus::Valid.code(), 0);
    assert_eq!(VerificationStatus::Invalid.code(), 1);
    assert_eq!(VerificationStatus::Pending.code(), 2);
    assert_eq!(VerificationStatus::Skipped.code(), 3);
    assert_eq!(SuspiciousActivityType::MultipleDevices.code(), 0);
    assert_eq!(SuspiciousActivityType::TabSwitch.code(), 1);
    assert_eq!(SuspiciousActivityType::WindowBlur.code(), 2);
    assert_eq!(SuspiciousActivityType::ScreenShare.code(), 3);
    assert_eq!(SuspiciousActivityType::UnauthorizedPerson.code(), 4);
    assert_eq!(SuspiciousActivityType::AudioAnomaly.code(), 5);
    assert_eq!(SuspiciousActivityType::Other.code(), 6);
    assert_eq!(RoomCloseReason::ProctorLeft.code(), 0);
    assert_eq!(RoomCloseReason::SessionCompleted.code(), 1);
    assert_eq!(RoomCloseReason::AdminClosed.code(), 2);
    assert_eq!(RoomCloseReason::Timeout.code(), 3);
    assert_eq!(LeaveReason::ProctorLeft as u8, LeaveReason::ProctorLeft.code());
    assert_eq!(RoomCloseReason::Timeout as u8, RoomCloseReason::Timeout.code());
}

#[test]
fn test_default_values() {
    assert_eq!(DEFAULT_ASSET_HUB_RPC_URL, "https://rpc.api.moonbase.moonbeam.network");
    assert_eq!(DEFAULT_SUBMISSION_TIMEOUT_SECS, 120);
    assert_eq!(DEFAULT_RETRY_COUNT, 5);
    assert_eq!(DEFAULT_GAS_LIMIT, 500_000);
}

#[test]
fn test_from_env_disabled() {
    assert!(AssetHubConfig::from_values(None, None, None, None, None, None, None).is_none());
}

#[test]
fn test_module_exports() {
    // Verify that all expected types are exported
    let _: fn() -> AssetHubConfig = || AssetHubConfig {
        enabled: false,
        rpc_url: String::new(),
        private_key: String::new(),
        contract_address: String::new(),
        submission_timeout_secs: 0,
        retry_count: 0,
        gas_limit: 0,
    };
}

#[test]
fn ledger_is_switched_on_in_any_case_of_letters() {
    let s = |t: &str| Some(t.to_string());
    let config = AssetHubConfig::from_values(s("TrUe"), s("0xkey"), s("0xabc"), None, None, None, None)
        .unwrap();
    assert!(config.enabled);
    assert_eq!(config.private_key, "0xkey");
    assert_eq!(config.contract_address, "0xabc");
    assert_eq!(config.rpc_url, DEFAULT_ASSET_HUB_RPC_URL);
    assert_eq!(config.submission_timeout_secs, 120);
    assert_eq!(config.retry_count, 5);
    assert_eq!(config.gas_limit, 500_000);
    assert!(AssetHubConfig::from_values(s("yes"), s("k"), s("a"), None, None, None, None).is_none());
    assert!(AssetHubConfig::from_values(s("false"), s("k"), s("a"), None, None, None, None).is_none());
}

#[test]
fn ledger_needs_key_and_contract() {
    let s = |t: &str| Some(t.to_string());
    assert!(AssetHubConfig::from_values(s("true"), None, s("a"), None, None, None, None).is_none());
    assert!(AssetHubConfig::from_values(s("true"), s(""), s("a"), None, None, None, None).is_none());
    assert!(AssetHubConfig::from_values(s("true"), s("k"), None, None, None, None, None).is_none());
    assert!(AssetHubConfig::from_values(s("true"), s("k"), s(""), None, None, None, None).is_none());
    assert!(AssetHubConfig::from_settings(false, s("k"), s("a"), None, None, None, None).is_none());
}

#[test]
fn ledger_settings_and_their_defaults() {
    let s = |t: &str| Some(t.to_string());
    let config = AssetHubConfig::from_settings(
        true,
        s("k"),
        s("a"),
        s("http://node"),
        s("30"),
        s("7"),
        s("1000000"),
    )
    .unwrap();
    assert_eq!(config.rpc_url, "http://node");
    assert_eq!(config.submission_timeout_secs, 30);
    assert_eq!(config.retry_count, 7);
    assert_eq!(config.gas_limit, 1_000_000);
    let odd = AssetHubConfig::from_settings(true, s("k"), s("a"), None, s("x"), s("-1"), s(""))
        .unwrap();
    assert_eq!(odd.submission_timeout_secs, 120);
    assert_eq!(odd.retry_count, 5);
    assert_eq!(odd.gas_limit, 500_000);
}

#[test]
fn test_parse_address() {
    let addr = parse_address("0x0000000000000000000000000000000000000000");
    assert!(addr.is_some());
    assert_eq!(addr.unwrap(), Address::zero());
}

#[test]
fn test_parse_address_invalid() {
    let addr = parse_address("invalid");
    assert!(addr.is_none());
}

#[test]
fn addresses_parse_as_the_hash_type_parses_them() {
    let cases = [
        "0x0000000000000000000000000000000000000000",
        "0000000000000000000000000000000000000000",
        "0xABCDEFabcdef0123456789ABCDEFabcdef012345",
        "0xabcdefabcdef0123456789abcdefabcdef01234",
        "0xabcdefabcdef0123456789abcdefabcdef0123456",
        "0xabcdefabcdef0123456789abcdefabcdef01234g",
        "0Xabcdefabcdef0123456789abcdefabcdef012345",
        "0x ab cd ef ab cd ef 01 23 45 67 89 ab cd ef ab cd ef 01 23 45",
        "0xabcdefabcdef0123456789abcdefabcdef012345\n",
        "\t0xabcdefabcdef0123456789abcdefabcdef012345",
        " abcdefabcdef0123456789abcdefabcdef012345",
        "0x0xabcdefabcdef0123456789abcdefabcdef0123",
        "",
        "0x",
        "invalid",
        "0xabcdefabcdef0123456789abcdefabcdef01234é",
    ];
    for case in cases {
        let expected = H160::from_str(case).ok().map(|h| h.0);
        assert_eq!(parse_address(case).map(|a| a.bytes), expected, "for {:?}", case);
    }
}

#[test]
fn addresses_are_written_as_the_hash_type_writes_them() {
    let mut bytes = [0u8; 20];
    for (i, b) in bytes.iter_mut().enumerate() {
        *b = (i as u8).wrapping_mul(37).wrapping_add(9);
    }
    for address in [Address::zero(), Address { bytes }, Address { bytes: [255; 20] }] {
        assert_eq!(address.to_hex(), format!("{:?}", H160(address.bytes)));
    }
    assert_eq!(Address::zero().to_hex(), "0x0000000000000000000000000000000000000000");
    assert_eq!(
        Address::from_low_u64_be(0x0102_0304_a5b6_c7d8).to_hex(),
        "0x00000000000000000000000001020304a5b6c7d8"
    );
}

#[test]
fn low_numbers_fill_the_last_bytes() {
    for n in [0u64, 1, 2, 255, 256, 0xdead_beef, u64::MAX] {
        assert_eq!(Address::from_low_u64_be(n).bytes, H160::from_low_u64_be(n).0);
    }
}

#[test]
fn written_addresses_parse_back() {
    let address = Address::from_low_u64_be(0xfeed_f00d);
    assert_eq!(parse_address(&address.to_hex()), Some(address));
}

#[test]
fn test_chain_event_debug() {
    let event = ChainEvent::RoomCreated {
        room_id: "room_123".to_string(),
        proctor: Address::zero(),
        proctor_name: Some("Dr. Smith".to_string()),
    };
    let debug_str = format!("{:?}", event);
    assert!(debug_str.contains("RoomCreated"));
    assert!(debug_str.contains("room_123"));
}

#[test]
fn test_chain_event_clone() {
    let event = ChainEvent::ParticipantJoined {
        room_id: "room_123".to_string(),
        participant: Address::zero(),
        name: Some("John".to_string()),
        role: Role::Student,
    };
    let cloned = event.clone();
    match cloned {
        ChainEvent::ParticipantJoined { room_id, .. } => {
            assert_eq!(room_id, "room_123");
        }
        _ => panic!("Wrong event type"),
    }
}

#[test]
fn test_dependency_key_room_events() {
    let room_created = ChainEvent::RoomCreated {
        room_id: "room_1".to_string(),
        proctor: Address::zero(),
        proctor_name: None,
    };
    assert_eq!(room_created.dependency_key(), Some("room:room_1".to_string()));

    let room_closed = ChainEvent::RoomClosed {
        room_id: "room_1".to_string(),
        reason: RoomCloseReason::ProctorLeft,
    };
    assert_eq!(room_closed.dependency_key(), Some("room:room_1".to_string()));
}

#[test]
fn test_dependency_key_participant_events() {
    let participant = Address::zero();

    let joined = ChainEvent::ParticipantJoined {
        room_id: "room_1".to_string(),
        participant,
        name: None,
        role: Role::Student,
    };
    let key = joined.dependency_key().unwrap();
    assert!(key.contains("room:room_1"));
    assert!(key.contains("participant:"));

    let recording = ChainEvent::RecordingStarted { room_id: "room_1".to_string(), participant };
    // Same participant in same room should have same key
    assert_eq!(joined.dependency_key(), recording.dependency_key());
}

#[test]
fn test_different_participants_different_keys() {
    let participant_a = Address::from_low_u64_be(1);
    let participant_b = Address::from_low_u64_be(2);

    let event_a = ChainEvent::ParticipantJoined {
        room_id: "room_1".to_string(),
        participant: participant_a,
        name: None,
        role: Role::Student,
    };

    let event_b = ChainEvent::ParticipantJoined {
        room_id: "room_1".to_string(),
        participant: participant_b,
        name: None,
        role: Role::Student,
    };

    // Different participants should have different dependency keys
    assert_ne!(event_a.dependency_key(), event_b.dependency_key());
}

#[test]
fn test_room_dependency() {
    let room_created = ChainEvent::RoomCreated {
        room_id: "room_1".to_string(),
        proctor: Address::zero(),
        proctor_name: None,
    };
    assert!(room_created.room_dependency().is_none());

    let participant_joined = ChainEvent::ParticipantJoined {
        room_id: "room_1".to_string(),
        participant: Address::zero(),
        name: None,
        role: Role::Student,
    };
    assert_eq!(participant_joined.room_dependency(), Some("room_1"));
}

#[test]
fn test_create_exam_result_event() {
    let event = ChainEvent::CreateExamResult {
        room_id: "exam_room_1".to_string(),
        participant: Address::zero(),
        grade: 8750, // 87.50%
        exam_name: "Final Exam".to_string(),
    };
    let debug_str = format!("{:?}", event);
    assert!(debug_str.contains("CreateExamResult"));
    assert!(debug_str.contains("8750"));
}

#[test]
fn test_add_recording_event() {
    let event = ChainEvent::AddRecordingToResult { result_id: 1, ipfs_cid: "QmTest123".to_string() };
    let debug_str = format!("{:?}", event);
    assert!(debug_str.contains("AddRecordingToResult"));
    assert!(debug_str.contains("QmTest123"));
}

#[test]
fn test_add_recordings_event() {
    let event = ChainEvent::AddRecordingsToResult {
        result_id: 1,
        ipfs_cids: vec!["QmCid1".to_string(), "QmCid2".to_string()],
    };
    let debug_str = format!("{:?}", event);
    assert!(debug_str.contains("AddRecordingsToResult"));
    assert!(debug_str.contains("QmCid1"));
}

fn ledger_config(contract_address: &str, retry_count: u32) -> AssetHubConfig {
    AssetHubConfig {
        enabled: true,
        rpc_url: "http://node".to_string(),
        private_key: "0xkey".to_string(),
        contract_address: contract_address.to_string(),
        submission_timeout_secs: 120,
        retry_count,
        gas_limit: 500_000,
    }
}

fn client() -> ContractClient {
    ContractClient::new(&ledger_config("0x00000000000000000000000000000000000000c0", 5)).unwrap()
}

#[test]
fn a_client_needs_the_address_of_the_contract() {
    let made = client();
    assert_eq!(made.contract_address(), Address::from_low_u64_be(0xc0));
    assert_eq!(made.submission_timeout_secs, 120);
    assert_eq!(made.retry_count, 5);
    assert_eq!(made.gas_limit, 500_000);
    assert_eq!(made.rpc_url, "http://node");
    assert_eq!(
        ContractClient::new(&ledger_config("nowhere", 5)),
        Err(SfuError::SubstrateConfig("Invalid contract address: nowhere".to_string()))
    );
}

#[test]
fn a_client_tries_as_often_as_it_is_told() {
    let three = ContractClient::new(&ledger_config("0x00000000000000000000000000000000000000c0", 3))
        .unwrap();
    assert_eq!(three.send_tx_with_retry(0, "nonce"), RetryStep::Wait { secs: 10, next_attempt: 1 });
    assert_eq!(three.send_tx_with_retry(1, "502"), RetryStep::Wait { secs: 10, next_attempt: 2 });
    assert_eq!(three.send_tx_with_retry(2, "502"), RetryStep::GiveUp);
}

#[test]
fn absent_texts_are_empty_on_the_ledger() {
    let c = client();
    let a = Address::from_low_u64_be(1);
    assert_eq!(
        c.record_room_created("r", a, Some("Dr")),
        ContractCall::RecordRoomCreated {
            room_id: "r".to_string(),
            proctor: a,
            proctor_name: "Dr".to_string(),
        }
    );
    assert_eq!(
        c.record_participant_kicked("r", a, a, None),
        ContractCall::RecordParticipantKicked {
            room_id: "r".to_string(),
            proctor: a,
            kicked: a,
            reason: String::new(),
        }
    );
    assert_eq!(
        c.record_recording_stopped("r", a, 9, Some("Qm")),
        ContractCall::RecordRecordingStopped {
            room_id: "r".to_string(),
            participant: a,
            duration_secs: 9,
            ipfs_cid: "Qm".to_string(),
        }
    );
    assert_eq!(
        c.record_participant_joined("r", a, None, Role::Proctor),
        ContractCall::RecordParticipantJoined {
            room_id: "r".to_string(),
            participant: a,
            name: String::new(),
            role: 0,
        }
    );
}

fn every_event() -> Vec<ChainEvent> {
    let room_id = "481516".to_string();
    let a = Address::from_low_u64_be(0xa1);
    let b = Address::from_low_u64_be(0xb2);
    vec![
        ChainEvent::RoomCreated { room_id: room_id.clone(), proctor: a, proctor_name: None },
        ChainEvent::ParticipantJoined {
            room_id: room_id.clone(),
            participant: b,
            name: Some("Ann".to_string()),
            role: Role::Student,
        },
        ChainEvent::ParticipantLeft {
            room_id: room_id.clone(),
            participant: b,
            reason: LeaveReason::Disconnected,
        },
        ChainEvent::ParticipantKicked {
            room_id: room_id.clone(),
            proctor: a,
            kicked: b,
            reason: None,
        },
        ChainEvent::IdVerification {
            room_id: room_id.clone(),
            participant: b,
            status: VerificationStatus::Skipped,
            verified_by: "p1".to_string(),
        },
        ChainEvent::SuspiciousActivity {
            room_id: room_id.clone(),
            participant: b,
            activity_type: SuspiciousActivityType::AudioAnomaly,
            details: Some("noise".to_string()),
        },
        ChainEvent::RecordingStarted { room_id: room_id.clone(), participant: b },
        ChainEvent::RecordingStopped {
            room_id: room_id.clone(),
            participant: b,
            duration_secs: 61,
            ipfs_cid: None,
        },
        ChainEvent::RoomClosed { room_id: room_id.clone(), reason: RoomCloseReason::Timeout },
        ChainEvent::CreateExamResult {
            room_id: room_id.clone(),
            participant: b,
            grade: 9000,
            exam_name: "Final".to_string(),
        },
        ChainEvent::AddRecordingToResult { result_id: 7, ipfs_cid: "Qm1".to_string() },
        ChainEvent::AddRecordingsToResult { result_id: 70, ipfs_cids: vec!["Qm2".to_string()] },
        ChainEvent::UpdateExamResultGrade { result_id: 700, new_grade: 5 },
        ChainEvent::MarkNftMinted { result_id: 18446744073709551615 },
    ]
}

#[test]
fn every_event_has_its_key() {
    let b = "0x00000000000000000000000000000000000000b2";
    let participant = format!("room:481516:participant:{}", b);
    let keys: Vec<String> = every_event().iter().map(|e| e.dependency_key().unwrap()).collect();
    assert_eq!(
        keys,
        vec![
            "room:481516".to_string(),
            participant.clone(),
            participant.clone(),
            participant.clone(),
            participant.clone(),
            participant.clone(),
            participant.clone(),
            participant.clone(),
            "room:481516".to_string(),
            participant.clone(),
            "result:7".to_string(),
            "result:70".to_string(),
            "result:700".to_string(),
            "result:18446744073709551615".to_string(),
        ]
    );
}

#[test]
fn every_event_names_the_room_that_it_waits_for() {
    let rooms: Vec<Option<String>> =
        every_event().iter().map(|e| e.room_dependency().map(|r| r.to_string())).collect();
    let room = Some("481516".to_string());
    assert_eq!(
        rooms,
        vec![
            None,
            room.clone(),
            room.clone(),
            room.clone(),
            room.clone(),
            room.clone(),
            room.clone(),
            room.clone(),
            room.clone(),
            room.clone(),
            None,
            None,
            None,
            None,
        ]
    );
}

#[test]
fn every_event_has_its_call() {
    let room_id = || "481516".to_string();
    let a = Address::from_low_u64_be(0xa1);
    let b = Address::from_low_u64_be(0xb2);
    let c = client();
    let calls: Vec<ContractCall> =
        every_event().iter().map(|e| EventQueue::handle_event(&c, e)).collect();
    assert_eq!(
        calls,
        vec![
            ContractCall::RecordRoomCreated {
                room_id: room_id(),
                proctor: a,
                proctor_name: String::new(),
            },
            ContractCall::RecordParticipantJoined {
                room_id: room_id(),
                participant: b,
                name: "Ann".to_string(),
                role: 1,
            },
            ContractCall::RecordParticipantLeft { room_id: room_id(), participant: b, reason: 2 },
            ContractCall::RecordParticipantKicked {
                room_id: room_id(),
                proctor: a,
                kicked: b,
                reason: String::new(),
            },
            ContractCall::RecordIdVerification {
                room_id: room_id(),
                participant: b,
                status: 3,
                verified_by: "p1".to_string(),
            },
            ContractCall::RecordSuspiciousActivity {
                room_id: room_id(),
                participant: b,
                activity_type: 5,
                details: "noise".to_string(),
            },
            ContractCall::RecordRecordingStarted { room_id: room_id(), participant: b },
            ContractCall::RecordRecordingStopped {
                room_id: room_id(),
                participant: b,
                duration_secs: 61,
                ipfs_cid: String::new(),
            },
            ContractCall::CloseRoom { room_id: room_id(), reason: 3 },
            ContractCall::CreateExamResult {
                room_id: room_id(),
                participant: b,
                grade: 9000,
                exam_name: "Final".to_string(),
            },
            ContractCall::AddRecordingToResult { result_id: 7, ipfs_cid: "Qm1".to_string() },
            ContractCall::AddRecordingsToResult {
                result_id: 70,
                ipfs_cids: vec!["Qm2".to_string()],
            },
            ContractCall::UpdateExamResultGrade { result_id: 700, new_grade: 5 },
            ContractCall::MarkNftMinted { result_id: 18446744073709551615 },
        ]
    );
}

#[test]
fn errors_fall_into_three_classes() {
    assert_eq!(classify_error("Priority is too low: (1 vs 1)"), ErrorClass::Nonce);
    assert_eq!(classify_error("invalid nonce"), ErrorClass::Nonce);
    assert_eq!(classify_error("transaction already known"), ErrorClass::Nonce);
    assert_eq!(classify_error("HTTP 502 with nonce trouble"), ErrorClass::Nonce);
    assert_eq!(classify_error("HTTP error 502 Bad Gateway"), ErrorClass::Transport);
    assert_eq!(classify_error("404"), ErrorClass::Transport);
    assert_eq!(classify_error("status: 503"), ErrorClass::Transport);
    assert_eq!(classify_error("429 Too Many Requests"), ErrorClass::Transport);
    assert_eq!(classify_error("execution reverted"), ErrorClass::Generic);
    assert_eq!(classify_error(""), ErrorClass::Generic);
    assert_eq!(classify_error("Nonce"), ErrorClass::Generic);
    assert_eq!(classify_error("50 2"), ErrorClass::Generic);
}

#[test]
fn waits_grow_with_the_tries() {
    assert_eq!(retry_delay_secs(ErrorClass::Nonce, 0), 10);
    assert_eq!(retry_delay_secs(ErrorClass::Nonce, 1), 20);
    assert_eq!(retry_delay_secs(ErrorClass::Nonce, 2), 30);
    assert_eq!(retry_delay_secs(ErrorClass::Transport, 0), 5);
    assert_eq!(retry_delay_secs(ErrorClass::Transport, 3), 20);
    assert_eq!(retry_delay_secs(ErrorClass::Generic, 0), 3);
    assert_eq!(retry_delay_secs(ErrorClass::Generic, 3), 12);
    assert_eq!(retry_delay_secs(ErrorClass::Nonce, u32::MAX), 42_949_672_960);
}

#[test]
fn tries_are_bounded() {
    assert_eq!(after_failure(0, 5, "nonce"), RetryStep::Wait { secs: 10, next_attempt: 1 });
    assert_eq!(after_failure(1, 5, "503"), RetryStep::Wait { secs: 10, next_attempt: 2 });
    assert_eq!(after_failure(3, 5, "boom"), RetryStep::Wait { secs: 12, next_attempt: 4 });
    assert_eq!(after_failure(4, 5, "boom"), RetryStep::GiveUp);
    assert_eq!(after_failure(7, 5, "boom"), RetryStep::GiveUp);
    assert_eq!(after_failure(0, 1, "boom"), RetryStep::GiveUp);
    assert_eq!(after_failure(0, 0, "boom"), RetryStep::GiveUp);
    assert_eq!(after_failure(u32::MAX, u32::MAX, "boom"), RetryStep::GiveUp);
}

fn joined(room: &str, who: u64) -> ChainEvent {
    ChainEvent::ParticipantJoined {
        room_id: room.to_string(),
        participant: Address::from_low_u64_be(who),
        name: None,
        role: Role::Student,
    }
}

fn created(room: &str) -> ChainEvent {
    ChainEvent::RoomCreated {
        room_id: room.to_string(),
        proctor: Address::from_low_u64_be(9),
        proctor_name: None,
    }
}

#[test]
fn events_wait_for_their_room_and_for_their_key() {
    let mut tracker = TransactionTracker::new();
    assert_eq!(TX_DELAY_MS, 3000);
    assert_eq!(tracker.needs_delay(&created("r1"), 1_000), None);
    assert_eq!(tracker.needs_delay(&joined("r1", 1), 1_000), Some(3000));
    tracker.record_completion(&created("r1"), 1_000);
    assert_eq!(tracker.needs_delay(&joined("r1", 1), 1_000), None);
    assert_eq!(tracker.needs_delay(&joined("r2", 1), 1_000), Some(3000));
    assert_eq!(tracker.needs_delay(&created("r1"), 1_500), Some(2500));
    assert_eq!(tracker.needs_delay(&created("r1"), 3_999), Some(1));
    assert_eq!(tracker.needs_delay(&created("r1"), 4_000), None);
    assert_eq!(tracker.needs_delay(&created("r1"), 500), Some(3000));
    tracker.record_completion(&joined("r1", 1), 5_000);
    assert_eq!(tracker.needs_delay(&joined("r1", 1), 6_000), Some(2000));
    assert_eq!(tracker.needs_delay(&joined("r1", 2), 6_000), None);
    let minted = ChainEvent::MarkNftMinted { result_id: 3 };
    assert_eq!(tracker.needs_delay(&minted, 6_000), None);
    tracker.record_completion(&minted, 6_000);
    assert_eq!(tracker.needs_delay(&minted, 6_001), Some(2999));
    assert_eq!(
        tracker.needs_delay(&ChainEvent::UpdateExamResultGrade { result_id: 3, new_grade: 1 }, 6_001),
        Some(2999)
    );
    assert_eq!(tracker.last_tx_times.len(), 3);
    assert_eq!(tracker.room_created.get("r1"), Some(&true));
}

#[test]
fn events_leave_the_line_in_their_order() {
    let c = client();
    let mut queue = EventQueue::new();
    assert!(queue.process_events(&c, 0).is_none());
    queue.emit(joined("r1", 1));
    queue.emit(created("r1"));
    queue.emit(joined("r1", 2));
    let first = queue.process_events(&c, 10).unwrap();
    assert_eq!(first.event, joined("r1", 1));
    assert_eq!(first.delay_ms, Some(3000));
    assert_eq!(first.call, EventQueue::handle_event(&c, &joined("r1", 1)));
    queue.record_completion(&first.event, 3_010);
    let second = queue.process_events(&c, 3_010).unwrap();
    assert_eq!(second.event, created("r1"));
    assert_eq!(second.delay_ms, None);
    queue.record_completion(&second.event, 3_020);
    let third = queue.process_events(&c, 3_020).unwrap();
    assert_eq!(third.event, joined("r1", 2));
    assert_eq!(third.delay_ms, None);
    assert!(queue.process_events(&c, 3_020).is_none());
    assert_eq!(queue.pending.len(), 0);
}
