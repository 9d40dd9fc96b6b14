use sfu_server::api::sfu_routes::sfu_health_check;
use sfu_server::error::SfuError;
use sfu_server::ipfs::{IpfsAddResponse, IpfsClient, IpfsConfig, IpfsUploadResult};
use sfu_server::recording::pipeline::{room_dir, RecordingPipeline, EOS_WAIT_SECS};
use sfu_server::recording::recorder::RecordingManager;
use sfu_server::recording::state::RecordingState;

fn s(t: &str) -> String {
    t.to_string()
}

#[test]
fn a_recording_is_idle_at_first() {
    assert_eq!(RecordingState::default(), RecordingState::Idle);
    let pipeline = RecordingPipeline::new("123456", "p1", "./recordings", 1_700_000_000_123);
    assert_eq!(pipeline.output_path, "./recordings/123456/p1_1700000000123.webm");
    assert_eq!(pipeline.output_path(), "./recordings/123456/p1_1700000000123.webm");
    assert_eq!(pipeline.get_state(), RecordingState::Idle);
    assert!(!pipeline.push_video_rtp());
    assert!(!pipeline.push_audio_rtp());
    assert_eq!(room_dir("./recordings", "123456"), "./recordings/123456");
    assert_eq!(RecordingPipeline::new("r", "p", "d", 0).output_path, "d/r/p_0.webm");
    assert_eq!(
        RecordingPipeline::new("r", "p", "", u64::MAX).output_path,
        "/r/p_18446744073709551615.webm"
    );
}

#[test]
fn a_recording_runs_stops_and_ends() {
    let mut pipeline = RecordingPipeline::new("123456", "p1", "out", 5);
    assert_eq!(pipeline.stop(), Err(SfuError::Internal(s("Recording not in progress"))));
    assert_eq!(pipeline.start(), Ok(()));
    assert_eq!(pipeline.get_state(), RecordingState::Recording);
    assert!(pipeline.push_video_rtp());
    assert!(pipeline.push_audio_rtp());
    assert_eq!(pipeline.start(), Err(SfuError::Internal(s("Recording already started"))));
    assert_eq!(pipeline.stop(), Ok(()));
    assert_eq!(pipeline.get_state(), RecordingState::Stopping);
    assert!(!pipeline.push_video_rtp());
    assert!(!pipeline.push_audio_rtp());
    assert_eq!(pipeline.stop(), Err(SfuError::Internal(s("Recording not in progress"))));
    assert_eq!(pipeline.finish(None), Ok(s("out/123456/p1_5.webm")));
    assert_eq!(pipeline.get_state(), RecordingState::Stopped);
    assert_eq!(pipeline.start(), Err(SfuError::Internal(s("Recording already started"))));
    assert_eq!(EOS_WAIT_SECS, 5);
}

#[test]
fn a_failed_muxer_leaves_an_error() {
    let mut pipeline = RecordingPipeline::new("123456", "p1", "out", 5);
    pipeline.start().unwrap();
    pipeline.stop().unwrap();
    assert_eq!(pipeline.finish(Some(s("disk full"))), Err(SfuError::MuxerFailed(s("disk full"))));
    assert_eq!(pipeline.get_state(), RecordingState::Error(s("disk full")));
}

#[test]
fn recordings_are_kept_by_room_and_peer() {
    let mut recordings = RecordingManager::new("/rec");
    assert!(!recordings.is_recording("123456", "p1"));
    assert!(!recordings.is_room_recording("123456"));
    assert_eq!(recordings.get_recording_state("123456", "p1"), None);
    assert_eq!(recordings.start_recording("123456", "p1", 10), Ok(s("/rec/123456/p1_10.webm")));
    assert_eq!(recordings.start_recording("123456", "s1", 11), Ok(s("/rec/123456/s1_11.webm")));
    assert_eq!(recordings.start_recording("654321", "p1", 12), Ok(s("/rec/654321/p1_12.webm")));
    assert_eq!(
        recordings.start_recording("123456", "p1", 13),
        Err(SfuError::RecordingAlreadyActive(s("peer p1 in room 123456")))
    );
    assert!(recordings.is_recording("123456", "p1"));
    assert!(recordings.is_recording("654321", "p1"));
    assert!(!recordings.is_recording("654321", "s1"));
    assert!(recordings.is_room_recording("123456"));
    assert_eq!(recordings.get_recording_state("123456", "s1"), Some(RecordingState::Recording));
    assert_eq!(recordings.get_recording_peers("123456"), vec![s("p1"), s("s1")]);
    assert_eq!(recordings.get_recording_peers("654321"), vec![s("p1")]);
    assert!(recordings.get_recording_peers("000000").is_empty());
    assert!(recordings.push_video_rtp("123456", "p1"));
    assert!(recordings.push_audio_rtp("123456", "s1"));
    assert!(!recordings.push_video_rtp("123456", "s2"));
    assert!(!recordings.push_audio_rtp("000000", "p1"));
}

#[test]
fn a_stopped_recording_leaves_the_table() {
    let mut recordings = RecordingManager::new("/rec");
    recordings.start_recording("123456", "p1", 10).unwrap();
    recordings.start_recording("123456", "s1", 11).unwrap();
    let stopped = recordings.stop_recording("123456", "s1").unwrap();
    assert_eq!(
        stopped,
        RecordingPipeline {
            output_path: s("/rec/123456/s1_11.webm"),
            state: RecordingState::Stopping,
        }
    );
    assert!(!recordings.is_recording("123456", "s1"));
    assert!(recordings.is_recording("123456", "p1"));
    assert_eq!(
        recordings.stop_recording("123456", "s1"),
        Err(SfuError::RecordingNotFound(s("peer s1 in room 123456")))
    );
    assert_eq!(recordings.cleanup_peer("123456", "s1"), None);
    assert_eq!(
        recordings.cleanup_peer("123456", "p1").map(|p| p.output_path),
        Some(s("/rec/123456/p1_10.webm"))
    );
    assert!(!recordings.is_room_recording("123456"));
    assert_eq!(recordings.start_recording("123456", "s1", 20), Ok(s("/rec/123456/s1_20.webm")));
}

#[test]
fn a_closing_room_stops_all_its_recordings() {
    let mut recordings = RecordingManager::new("/rec");
    recordings.start_recording("123456", "p1", 10).unwrap();
    recordings.start_recording("654321", "q1", 11).unwrap();
    recordings.start_recording("123456", "s1", 12).unwrap();
    let stopped = recordings.stop_all_recordings_in_room("123456");
    let summary: Vec<(String, String, RecordingState)> =
        stopped.into_iter().map(|(peer, p)| (peer, p.output_path.clone(), p.state)).collect();
    assert_eq!(
        summary,
        vec![
            (s("p1"), s("/rec/123456/p1_10.webm"), RecordingState::Stopping),
            (s("s1"), s("/rec/123456/s1_12.webm"), RecordingState::Stopping),
        ]
    );
    assert!(!recordings.is_room_recording("123456"));
    assert!(recordings.is_recording("654321", "q1"));
    assert!(recordings.stop_all_recordings_in_room("123456").is_empty());
    assert_eq!(recordings.cleanup_room("654321"), 1);
    assert_eq!(recordings.cleanup_room("654321"), 0);
}

#[test]
fn test_ipfs_config_disabled_by_default() {
    let config = IpfsConfig::from_values(None, None, None, None);
    assert!(config.is_none());
}

#[test]
fn the_store_is_switched_on_by_true_alone() {
    let t = |v: &str| Some(v.to_string());
    assert!(IpfsConfig::from_values(t("false"), None, None, None).is_none());
    assert!(IpfsConfig::from_values(t("True"), None, None, None).is_none());
    assert!(IpfsConfig::from_values(t("1"), None, None, None).is_none());
    let config = IpfsConfig::from_values(t("true"), None, None, None).unwrap();
    assert_eq!(
        config,
        IpfsConfig {
            enabled: true,
            api_url: s("http://127.0.0.1:5001"),
            gateway_url: s("http://127.0.0.1:8080/ipfs"),
            upload_timeout_secs: 300,
        }
    );
    let set = IpfsConfig::from_values(t("true"), t("http://a"), t("http://g"), t("60")).unwrap();
    assert_eq!(set.api_url, "http://a");
    assert_eq!(set.gateway_url, "http://g");
    assert_eq!(set.upload_timeout_secs, 60);
    let odd = IpfsConfig::from_values(t("true"), None, None, t("soon")).unwrap();
    assert_eq!(odd.upload_timeout_secs, 300);
}

#[test]
fn uploads_are_found_at_the_gateway() {
    let config = IpfsConfig::from_values(Some(s("true")), Some(s("http://a")), Some(s("http://g/ipfs")), None)
        .unwrap();
    let client = IpfsClient::new(config);
    assert_eq!(client.add_url(), "http://a/api/v0/add");
    assert_eq!(client.version_url(), "http://a/api/v0/version");
    assert_eq!(client.gateway_url(), "http://g/ipfs");
    let response = IpfsAddResponse { name: s("test.webm"), hash: s("QmTest"), size: s("12345") };
    assert_eq!(
        client.upload_file(response),
        IpfsUploadResult { cid: s("QmTest"), gateway_url: s("http://g/ipfs/QmTest"), size: 12345 }
    );
    let odd = IpfsAddResponse { name: s("x"), hash: s("Qm2"), size: s("big") };
    assert_eq!(client.upload_file(odd).size, 0);
    assert_eq!(IpfsClient::upload_name(Some(s("a.webm"))), "a.webm");
    assert_eq!(IpfsClient::upload_name(None), "recording.webm");
}

#[test]
fn the_server_reports_its_health() {
    let report = sfu_health_check();
    assert_eq!(report.status, "healthy");
    assert_eq!(report.service, "SFU Server");
    assert_eq!(report.version, "1.0.0");
}
