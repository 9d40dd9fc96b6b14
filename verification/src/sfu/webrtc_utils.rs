use crate::sfu::track_manager::{feedback_views, CodecCapability, CodecView, RtcpFeedback, TrackKind};
use crate::text::{clone_strings, text_views};
use vstd::prelude::*;
use vstd::string::*;

verus! {

/// A TURN server and how to log in to it.
#[derive(Debug, Clone, PartialEq, Eq)]
pub struct TurnServer {
    pub urls: Vec<String>,
    pub username: String,
    pub credential: String,
}

/// The servers that help peers to find a path.
#[derive(Debug, Clone, PartialEq, Eq)]
pub struct WebRTCConfig {
    pub stun_servers: Vec<String>,
    pub turn_servers: Vec<TurnServer>,
}

/// An ICE server as a peer connection takes it.
#[derive(Debug, Clone, PartialEq, Eq)]
pub struct IceServer {
    pub urls: Vec<String>,
    pub username: String,
    pub credential: String,
    /// Whether the credential is a password; a STUN server has none.
    pub with_password: bool,
}

/// An ICE server as the contracts see it.
pub struct IceServerView {
    pub urls: Seq<Seq<char>>,
    pub username: Seq<char>,
    pub credential: Seq<char>,
    pub with_password: bool,
}

impl View for IceServer {
    type V = IceServerView;

    open spec fn view(&self) -> IceServerView {
        IceServerView {
            urls: text_views(self.urls@),
            username: self.username@,
            credential: self.credential@,
            with_password: self.with_password,
        }
    }
}

/// The ICE servers of a list as the contracts see them.
pub open spec fn ice_server_views(s: Seq<IceServer>) -> Seq<IceServerView> {
    s.map_values(|i: IceServer| i@)
}

/// The STUN server that is used where none is named.
pub open spec fn default_stun() -> Seq<char> {
    "stun:stun.l.google.com:19302"@
}

/// The ICE server of a STUN address: the address alone, without credentials.
pub open spec fn stun_entry() -> spec_fn(String) -> IceServerView {
    |url: String|
        IceServerView {
            urls: seq![url@],
            username: Seq::empty(),
            credential: Seq::empty(),
            with_password: false,
        }
}

/// The ICE server of a TURN server: its addresses with its user and password.
pub open spec fn turn_entry() -> spec_fn(TurnServer) -> IceServerView {
    |turn: TurnServer|
        IceServerView {
            urls: text_views(turn.urls@),
            username: turn.username@,
            credential: turn.credential@,
            with_password: true,
        }
}

impl WebRTCConfig {
    /// The configuration for the given settings: the STUN server, or the default one where
    /// none is given; and a TURN server where its address, user and password are all given.
    pub fn from_values(
        stun_server: Option<String>,
        turn_url: Option<String>,
        turn_username: Option<String>,
        turn_credential: Option<String>,
    ) -> (config: WebRTCConfig)
        ensures
            config.stun_servers@.len() == 1,
            config.stun_servers@[0]@ == (match stun_server {
                Some(s) => s@,
                None => default_stun(),
            }),
            match (turn_url, turn_username, turn_credential) {
                (Some(url), Some(user), Some(password)) => {
                    &&& config.turn_servers@.len() == 1
                    &&& text_views(config.turn_servers@[0].urls@) == seq![url@]
                    &&& config.turn_servers@[0].username@ == user@
                    &&& config.turn_servers@[0].credential@ == password@
                },
                _ => config.turn_servers@.len() == 0,
            },
    {
        let stun = match stun_server {
            Some(s) => s,
            None => String::from_str("stun:stun.l.google.com:19302"),
        };
        let mut stun_servers: Vec<String> = Vec::new();
        stun_servers.push(stun);
        let mut turn_servers: Vec<TurnServer> = Vec::new();
        match (turn_url, turn_username, turn_credential) {
            (Some(url), Some(username), Some(credential)) => {
                let mut urls: Vec<String> = Vec::new();
                urls.push(url);
                assert(text_views(urls@) =~= seq![url@]);
                turn_servers.push(TurnServer { urls, username, credential });
            },
            _ => {},
        }
        WebRTCConfig { stun_servers, turn_servers }
    }
}

/// The ICE servers of a configuration: one for each STUN address, then one for each TURN
/// server.
pub fn get_ice_servers(config: &WebRTCConfig) -> (servers: Vec<IceServer>)
    ensures
        ice_server_views(servers@) == config.stun_servers@.map_values(stun_entry())
            + config.turn_servers@.map_values(turn_entry()),
{
    let mut servers: Vec<IceServer> = Vec::new();
    let mut i: usize = 0;
    while i < config.stun_servers.len()
        invariant
            i <= config.stun_servers.len(),
            servers.len() == i,
            forall|k: int| 0 <= k < i ==> (#[trigger] servers[k])@ == stun_entry()(
                config.stun_servers[k],
            ),
        decreases config.stun_servers.len() - i,
    {
        let mut urls: Vec<String> = Vec::new();
        urls.push(config.stun_servers[i].clone());
        assert(text_views(urls@) =~= seq![config.stun_servers[i as int]@]);
        servers.push(
            IceServer {
                urls,
                username: String::new(),
                credential: String::new(),
                with_password: false,
            },
        );
        i += 1;
    }
    let n = config.stun_servers.len();
    let mut j: usize = 0;
    while j < config.turn_servers.len()
        invariant
            j <= config.turn_servers.len(),
            n == config.stun_servers.len(),
            servers.len() == n + j,
            forall|k: int| 0 <= k < n ==> (#[trigger] servers[k])@ == stun_entry()(
                config.stun_servers[k],
            ),
            forall|k: int| 0 <= k < j ==> (#[trigger] servers[n + k])@ == turn_entry()(
                config.turn_servers[k],
            ),
        decreases config.turn_servers.len() - j,
    {
        let turn = &config.turn_servers[j];
        servers.push(
            IceServer {
                urls: clone_strings(&turn.urls),
                username: turn.username.clone(),
                credential: turn.credential.clone(),
                with_password: true,
            },
        );
        j += 1;
    }
    proof {
        let want = config.stun_servers@.map_values(stun_entry()) + config.turn_servers@.map_values(
            turn_entry(),
        );
        assert forall|k: int| 0 <= k < servers.len() implies #[trigger] ice_server_views(
            servers@,
        )[k] == want[k] by {
            if k >= n {
                assert(servers[n + (k - n)]@ == turn_entry()(config.turn_servers[k - n]));
            }
        }
        assert(ice_server_views(servers@) =~= want);
    }
    servers
}

/// A codec as the media engine registers it.
#[derive(Debug, Clone, PartialEq, Eq)]
pub struct CodecParameters {
    pub capability: CodecCapability,
    pub payload_type: u8,
    pub kind: TrackKind,
}

/// The video codec that the server offers: VP8 at 90000 Hz under payload type 96, with the
/// feedback kinds `goog-remb`, `ccm fir`, `nack` and `nack pli`.
pub open spec fn video_codec_view() -> CodecView {
    CodecView {
        mime_type: "video/VP8"@,
        clock_rate: 90000,
        channels: 0,
        sdp_fmtp_line: Seq::empty(),
        rtcp_feedback: seq![
            ("goog-remb"@, Seq::empty()),
            ("ccm"@, "fir"@),
            ("nack"@, Seq::empty()),
            ("nack"@, "pli"@),
        ],
    }
}

/// The audio codec that the server offers: Opus at 48000 Hz with two channels under payload
/// type 111.
pub open spec fn audio_codec_view() -> CodecView {
    CodecView {
        mime_type: "audio/opus"@,
        clock_rate: 48000,
        channels: 2,
        sdp_fmtp_line: "minptime=10;useinbandfec=1"@,
        rtcp_feedback: Seq::empty(),
    }
}

/// The video codec that the server offers.
pub fn video_codec() -> (codec: CodecParameters)
    ensures
        codec.capability@ == video_codec_view(),
        codec.payload_type == 96,
        codec.kind == TrackKind::Video,
{
    let mut feedback: Vec<RtcpFeedback> = Vec::new();
    feedback.push(RtcpFeedback { typ: String::from_str("goog-remb"), parameter: String::new() });
    feedback.push(
        RtcpFeedback { typ: String::from_str("ccm"), parameter: String::from_str("fir") },
    );
    feedback.push(RtcpFeedback { typ: String::from_str("nack"), parameter: String::new() });
    feedback.push(
        RtcpFeedback { typ: String::from_str("nack"), parameter: String::from_str("pli") },
    );
    assert(feedback_views(feedback@) =~= video_codec_view().rtcp_feedback);
    CodecParameters {
        capability: CodecCapability {
            mime_type: String::from_str("video/VP8"),
            clock_rate: 90000,
            channels: 0,
            sdp_fmtp_line: String::new(),
            rtcp_feedback: feedback,
        },
        payload_type: 96,
        kind: TrackKind::Video,
    }
}

/// The audio codec that the server offers.
pub fn audio_codec() -> (codec: CodecParameters)
    ensures
        codec.capability@ == audio_codec_view(),
        codec.payload_type == 111,
        codec.kind == TrackKind::Audio,
{
    let feedback: Vec<RtcpFeedback> = Vec::new();
    assert(feedback_views(feedback@) =~= Seq::<(Seq<char>, Seq<char>)>::empty());
    CodecParameters {
        capability: CodecCapability {
            mime_type: String::from_str("audio/opus"),
            clock_rate: 48000,
            channels: 2,
            sdp_fmtp_line: String::from_str("minptime=10;useinbandfec=1"),
            rtcp_feedback: feedback,
        },
        payload_type: 111,
        kind: TrackKind::Audio,
    }
}

/// How the server sets up its WebRTC engine.
#[derive(Debug, Clone, PartialEq, Eq)]
pub struct ApiSettings {
    /// The codecs to register, in this order.
    pub codecs: Vec<CodecParameters>,
    /// Whether ICE is bound to IPv4 alone.
    pub ipv4_only: bool,
    /// Whether candidates are hidden behind multicast DNS names.
    pub multicast_dns: bool,
    /// The kinds of the transceivers that every new connection gets before its first offer.
    pub transceivers: Vec<TrackKind>,
}

/// How the server sets up its WebRTC engine: VP8 and Opus, ICE over IPv4 alone and without
/// multicast DNS, and a video and an audio transceiver for every new connection.
pub fn create_webrtc_api() -> (settings: ApiSettings)
    ensures
        settings.codecs@.len() == 2,
        settings.codecs@[0].capability@ == video_codec_view(),
        settings.codecs@[0].payload_type == 96,
        settings.codecs@[0].kind == TrackKind::Video,
        settings.codecs@[1].capability@ == audio_codec_view(),
        settings.codecs@[1].payload_type == 111,
        settings.codecs@[1].kind == TrackKind::Audio,
        settings.ipv4_only,
        !settings.multicast_dns,
        settings.transceivers@ == seq![TrackKind::Video, TrackKind::Audio],
{
    let mut codecs: Vec<CodecParameters> = Vec::new();
    codecs.push(video_codec());
    codecs.push(audio_codec());
    let mut transceivers: Vec<TrackKind> = Vec::new();
    transceivers.push(TrackKind::Video);
    transceivers.push(TrackKind::Audio);
    assert(transceivers@ =~= seq![TrackKind::Video, TrackKind::Audio]);
    ApiSettings { codecs, ipv4_only: true, multicast_dns: false, transceivers }
}

} // verus!
