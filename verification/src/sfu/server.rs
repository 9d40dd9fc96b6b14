use crate::error::SfuError;
use crate::recording::pipeline::{spec_output_path, RecordingPipeline};
use crate::recording::recorder::{
    recording_name, RecordingManager, RecordingManagerView, RecordingView,
};
use crate::recording::state::RecordingState;
use crate::seq_lemmas::{lemma_filter_all, lemma_filter_start, lemma_filter_step};
use crate::sfu::track_manager::track_views;
use crate::sfu::room::{PeerRole, RoomManager, RoomManagerView};
use crate::sfu::signaling::{SfuMessage, SfuMessageView};
use crate::sfu::track_manager::{
    track_id_of, LocalSink, SinkView, TrackKind, TrackManager, TrackManagerView, TrackView,
};
use crate::strmap::{lemma_strmap_put, StrMap, StrMapView};
use crate::substrate::client::{LeaveReason, Role, RoomCloseReason};
use crate::substrate::client::text_or_empty;
use crate::substrate::queue::{ChainEvent, ChainEventView};
use crate::substrate::Address;
use crate::text::{clone_opt_string, opt_view, str_eq, text_views};
use vstd::prelude::*;
use vstd::string::*;
use webrtc::peer_connection::sdp::session_description::RTCSessionDescription;

verus! {

/// How long a student waits between two looks at the proctor's tracks, in milliseconds.
pub const STUDENT_WAIT_MS: u64 = 200;

/// How many times a student waits for the proctor's tracks before joining anyway.
pub const STUDENT_WAIT_ATTEMPTS: u32 = 15;

/// How long after the first added track the server offers anew, in milliseconds.
pub const RENEGOTIATION_DELAY_MS: u64 = 150;

/// After how many tries a renegotiation that finds the connection busy is given up.
pub const MAX_RENEGOTIATION_RETRIES: u32 = 3;

/// The wait after the first busy try of a renegotiation, in milliseconds; it doubles with
/// every further try.
pub const BASE_RETRY_DELAY_MS: u64 = 200;

/// The sender SSRC of every picture loss indication that the server sends.
pub const PLI_SENDER_SSRC: u32 = 0;

/// An ICE candidate as a peer sent it.
#[derive(Debug, Clone, PartialEq, Eq)]
pub struct IceCandidate {
    pub candidate: String,
    pub sdp_mid: Option<String>,
    pub sdp_mline_index: Option<u16>,
}

/// A candidate as the contracts see it.
pub struct IceCandidateView {
    pub candidate: Seq<char>,
    pub sdp_mid: Option<Seq<char>>,
    pub sdp_mline_index: Option<u16>,
}

impl View for IceCandidate {
    type V = IceCandidateView;

    open spec fn view(&self) -> IceCandidateView {
        IceCandidateView {
            candidate: self.candidate@,
            sdp_mid: opt_view(self.sdp_mid),
            sdp_mline_index: self.sdp_mline_index,
        }
    }
}

/// A candidate that waits until its peer's answer has been applied.
#[derive(Debug, Clone, PartialEq, Eq)]
pub struct QueuedCandidate {
    pub peer_id: String,
    pub candidate: IceCandidate,
}

/// The waiting candidates as the contracts see them: each with the id of its peer.
pub open spec fn queue_view(s: Seq<QueuedCandidate>) -> Seq<(Seq<char>, IceCandidateView)> {
    s.map_values(|q: QueuedCandidate| (q.peer_id@, q.candidate@))
}

/// What the server keeps of a peer's connection.
#[derive(Debug, Clone, Copy, PartialEq, Eq)]
pub struct Connection {
    /// Whether the peer's answer has been applied as the remote description.
    pub remote_description_set: bool,
}

/// A student who has asked for admission and has not been admitted yet.
#[derive(Debug, Clone, Copy, PartialEq, Eq)]
pub struct PendingStudent {
    pub wallet: Option<Address>,
}

/// The grade that was submitted for a peer.
#[derive(Debug, Clone, PartialEq, Eq)]
pub struct ExamGrade {
    pub grade_basis_points: u64,
    pub exam_name: Option<String>,
}

/// What the server asks of the world around it. The actions of one list are carried out in
/// the order of the list.
#[derive(Debug, Clone, PartialEq, Eq)]
#[allow(inconsistent_fields)]
pub enum ServerAction {
    /// Build the peer connection of a new peer.
    CreateConnection { peer_id: String },
    /// Add a sink to the connection of the peer that subscribes.
    AddTrack { target_peer_id: String, sink: LocalSink },
    /// Send a picture loss indication to the publisher of a track.
    SendPli { source_peer_id: String, sender_ssrc: u32, media_ssrc: u32 },
    /// Create an offer, make it the local description and send it to the peer.
    SendOffer { peer_id: String },
    /// After the delay, try a renegotiation with the peer.
    ScheduleRenegotiation { peer_id: String, delay_ms: u64 },
    /// Apply the peer's answer as the remote description.
    SetRemoteAnswer { peer_id: String, sdp: String },
    /// Hand a candidate to the peer's connection.
    AddIceCandidate { peer_id: String, candidate: IceCandidate },
    /// Close the peer's connection.
    CloseConnection { peer_id: String },
    /// Start to record the peer.
    StartRecording { room_id: String, peer_id: String },
    /// Stop the recording of the peer.
    StopRecording { room_id: String, peer_id: String },
    /// Stop every recording of the room.
    StopRoomRecordings { room_id: String },
    /// Send an envelope to a peer.
    Notify { peer_id: String, message: SfuMessage },
    /// Put an event in the line for the ledger.
    Emit { event: ChainEvent },
    /// Send an envelope to the peer whose envelope is being handled.
    Reply { message: SfuMessage },
    /// Tell the peer whose envelope is being handled which peers of the room are recorded.
    ReportRecordingStatus { room_id: String },
    /// When the recordings that were told to stop have ended, carry out what
    /// `departure_actions` says for this departure and those recordings.
    AwaitRecordings { departure: Departure },
}

/// An action as the contracts see it.
#[allow(inconsistent_fields)]
pub enum ServerActionView {
    CreateConnection { peer_id: Seq<char> },
    AddTrack { target_peer_id: Seq<char>, sink: SinkView },
    SendPli { source_peer_id: Seq<char>, sender_ssrc: u32, media_ssrc: u32 },
    SendOffer { peer_id: Seq<char> },
    ScheduleRenegotiation { peer_id: Seq<char>, delay_ms: u64 },
    SetRemoteAnswer { peer_id: Seq<char>, sdp: Seq<char> },
    AddIceCandidate { peer_id: Seq<char>, candidate: IceCandidateView },
    CloseConnection { peer_id: Seq<char> },
    StartRecording { room_id: Seq<char>, peer_id: Seq<char> },
    StopRecording { room_id: Seq<char>, peer_id: Seq<char> },
    StopRoomRecordings { room_id: Seq<char> },
    Notify { peer_id: Seq<char>, message: SfuMessageView },
    Emit { event: ChainEventView },
    Reply { message: SfuMessageView },
    ReportRecordingStatus { room_id: Seq<char> },
    AwaitRecordings { departure: DepartureView },
}

impl View for ServerAction {
    type V = ServerActionView;

    open spec fn view(&self) -> ServerActionView {
        match *self {
            ServerAction::CreateConnection { peer_id } => ServerActionView::CreateConnection {
                peer_id: peer_id@,
            },
            ServerAction::AddTrack { target_peer_id, sink } => ServerActionView::AddTrack {
                target_peer_id: target_peer_id@,
                sink: sink@,
            },
            ServerAction::SendPli {
                source_peer_id,
                sender_ssrc,
                media_ssrc,
            } => ServerActionView::SendPli {
                source_peer_id: source_peer_id@,
                sender_ssrc,
                media_ssrc,
            },
            ServerAction::SendOffer { peer_id } => ServerActionView::SendOffer {
                peer_id: peer_id@,
            },
            ServerAction::ScheduleRenegotiation {
                peer_id,
                delay_ms,
            } => ServerActionView::ScheduleRenegotiation { peer_id: peer_id@, delay_ms },
            ServerAction::SetRemoteAnswer { peer_id, sdp } => ServerActionView::SetRemoteAnswer {
                peer_id: peer_id@,
                sdp: sdp@,
            },
            ServerAction::AddIceCandidate {
                peer_id,
                candidate,
            } => ServerActionView::AddIceCandidate { peer_id: peer_id@, candidate: candidate@ },
            ServerAction::CloseConnection { peer_id } => ServerActionView::CloseConnection {
                peer_id: peer_id@,
            },
            ServerAction::StartRecording { room_id, peer_id } => ServerActionView::StartRecording {
                room_id: room_id@,
                peer_id: peer_id@,
            },
            ServerAction::StopRecording { room_id, peer_id } => ServerActionView::StopRecording {
                room_id: room_id@,
                peer_id: peer_id@,
            },
            ServerAction::StopRoomRecordings {
                room_id,
            } => ServerActionView::StopRoomRecordings { room_id: room_id@ },
            ServerAction::Notify { peer_id, message } => ServerActionView::Notify {
                peer_id: peer_id@,
                message: message@,
            },
            ServerAction::Emit { event } => ServerActionView::Emit { event: event@ },
            ServerAction::Reply { message } => ServerActionView::Reply { message: message@ },
            ServerAction::ReportRecordingStatus {
                room_id,
            } => ServerActionView::ReportRecordingStatus { room_id: room_id@ },
            ServerAction::AwaitRecordings { departure } => ServerActionView::AwaitRecordings {
                departure: departure@,
            },
        }
    }
}

/// The actions of a list as the contracts see them.
pub open spec fn action_views(s: Seq<ServerAction>) -> Seq<ServerActionView> {
    s.map_values(|a: ServerAction| a@)
}

/// Grade in basis points: the score times 10000 over the total, rounded down; 0 where the
/// total is 0.
pub open spec fn spec_grade_basis_points(score: u32, total: u32) -> u64 {
    if total == 0 {
        0
    } else {
        ((score * 10000) / (total as int)) as u64
    }
}

/// Grade in basis points.
pub fn grade_basis_points(score: u32, total: u32) -> (grade: u64)
    ensures
        grade == spec_grade_basis_points(score, total),
        total > 0 ==> grade == (score * 10000) / (total as int),
        total == 0 ==> grade == 0,
{
    if total == 0 {
        return 0;
    }
    let scaled: u64 = score as u64 * 10000;
    scaled / (total as u64)
}

/// A score that does not exceed the total gives at most 10000 basis points, and the full
/// score gives exactly that.
pub proof fn lemma_grade_range(score: u32, total: u32)
    requires
        total > 0,
        score <= total,
    ensures
        spec_grade_basis_points(score, total) <= 10000,
        spec_grade_basis_points(total, total) == 10000,
{
    assert((score * 10000) / (total as int) <= 10000) by (nonlinear_arith)
        requires
            0 <= score <= total,
            total > 0,
    ;
    assert((total * 10000) / (total as int) == 10000) by (nonlinear_arith)
        requires
            total > 0,
    ;
}

/// Holds of the queued candidates of the peer `peer_id`.
pub open spec fn queued_for(peer_id: Seq<char>) -> spec_fn((Seq<char>, IceCandidateView)) -> bool {
    |e: (Seq<char>, IceCandidateView)| e.0 == peer_id
}

/// Holds of the queued candidates of other peers than `peer_id`.
pub open spec fn queued_for_others(peer_id: Seq<char>) -> spec_fn(
    (Seq<char>, IceCandidateView),
) -> bool {
    |e: (Seq<char>, IceCandidateView)| e.0 != peer_id
}

/// The action that hands a queued candidate to its peer's connection.
pub open spec fn replay() -> spec_fn((Seq<char>, IceCandidateView)) -> ServerActionView {
    |e: (Seq<char>, IceCandidateView)|
        ServerActionView::AddIceCandidate { peer_id: e.0, candidate: e.1 }
}

/// A candidate under the name of its peer, as it stands in the queue.
pub open spec fn tagged(peer_id: Seq<char>) -> spec_fn(IceCandidateView) -> (
    Seq<char>,
    IceCandidateView,
) {
    |c: IceCandidateView| (peer_id, c)
}

/// Candidates that arrive before the answer are handed to the connection, once the answer is
/// applied, in the order in which they arrived, after those that waited already.
pub proof fn lemma_ice_replay_order(
    queue: Seq<(Seq<char>, IceCandidateView)>,
    peer_id: Seq<char>,
    arrivals: Seq<IceCandidateView>,
)
    ensures
        (queue + arrivals.map_values(tagged(peer_id))).filter(queued_for(peer_id)).map_values(
            replay(),
        ) == queue.filter(queued_for(peer_id)).map_values(replay()) + arrivals.map_values(
            |c: IceCandidateView| ServerActionView::AddIceCandidate { peer_id, candidate: c },
        ),
        (queue + arrivals.map_values(tagged(peer_id))).filter(queued_for_others(peer_id))
            == queue.filter(queued_for_others(peer_id)),
{
    let new = arrivals.map_values(tagged(peer_id));
    Seq::filter_distributes_over_add(queue, new, queued_for(peer_id));
    Seq::filter_distributes_over_add(queue, new, queued_for_others(peer_id));
    lemma_filter_all(new, queued_for(peer_id));
    assert(new.filter(queued_for_others(peer_id)).len() == 0) by {
        new.lemma_all_neg_filter_empty(queued_for_others(peer_id));
    }
    assert(queue.filter(queued_for_others(peer_id)) + new.filter(queued_for_others(peer_id))
        =~= queue.filter(queued_for_others(peer_id)));
    assert((queue.filter(queued_for(peer_id)) + new).map_values(replay()) =~= queue.filter(
        queued_for(peer_id),
    ).map_values(replay()) + arrivals.map_values(
        |c: IceCandidateView| ServerActionView::AddIceCandidate { peer_id, candidate: c },
    ));
}

/// Why `RTCSessionDescription::answer` of the webrtc crate refuses a text as the SDP of an
/// answer; nothing where it takes the text.
pub uninterp spec fn answer_sdp_failure(sdp: Seq<char>) -> Option<Seq<char>>;

/// `webrtc::peer_connection::sdp::session_description::RTCSessionDescription::answer` parses
/// the text as a session description. The wrapper hands back the words of its error, or
/// nothing where it succeeds; the claim is only that the same text gives the same outcome.
#[verifier::external_body]
fn check_answer_sdp(sdp: &str) -> (failure: Option<String>)
    ensures
        opt_view(failure) == answer_sdp_failure(sdp@),
{
    match RTCSessionDescription::answer(sdp.to_string()) {
        Ok(_) => None,
        Err(e) => Some(e.to_string()),
    }
}

/// What a student who wants to join does next.
#[derive(Debug, Clone, Copy, PartialEq, Eq, Structural)]
pub enum StudentWait {
    /// Join now. `proctor_ready` says whether the proctor's tracks are there.
    Proceed { proctor_ready: bool },
    /// Wait so many milliseconds and look again, having waited `retries` times by then.
    Sleep { ms: u64, retries: u32 },
}

/// What a student does after `retries` waits: join once the proctor is ready, wait while
/// fewer than fifteen waits have passed, and join regardless after the fifteenth.
pub open spec fn spec_student_wait(proctor_ready: bool, retries: u32) -> StudentWait {
    if proctor_ready {
        StudentWait::Proceed { proctor_ready: true }
    } else if retries < STUDENT_WAIT_ATTEMPTS {
        StudentWait::Sleep { ms: STUDENT_WAIT_MS, retries: (retries + 1) as u32 }
    } else {
        StudentWait::Proceed { proctor_ready: false }
    }
}

/// How many waits are still ahead after `retries` waits if the proctor never gets ready.
pub open spec fn waits_ahead(retries: u32) -> nat
    decreases STUDENT_WAIT_ATTEMPTS - retries,
{
    match spec_student_wait(false, retries) {
        StudentWait::Sleep { retries: next, .. } => 1 + waits_ahead(next),
        StudentWait::Proceed { .. } => 0,
    }
}

/// A student whose proctor never gets ready waits exactly fifteen times, two hundred
/// milliseconds each, and then joins.
pub proof fn lemma_student_waits_fifteen_times()
    ensures
        waits_ahead(0) == 15,
        forall|retries: u32|
            retries < 15 ==> #[trigger] spec_student_wait(false, retries) == (StudentWait::Sleep {
                ms: 200,
                retries: (retries + 1) as u32,
            }),
        spec_student_wait(false, 15) == (StudentWait::Proceed { proctor_ready: false }),
{
    reveal_with_fuel(waits_ahead, 17);
}

/// How a try at a renegotiation ends.
#[derive(Debug, Clone, Copy, PartialEq, Eq, Structural)]
pub enum RenegotiationStep {
    /// The peer has no connection any more: nothing is done.
    NoConnection,
    /// The connection is stable: create an offer, make it the local description and send it
    /// as a renegotiation.
    SendOffer,
    /// The connection is busy: this try is dropped, and the next added track brings the next.
    /// The delay is what a retry would wait; it is reported and not waited for.
    Deferred { retry_delay_ms: u64 },
    /// The connection is busy and the tries are used up.
    GivenUp,
}

/// The wait that goes with a busy try: 200 ms, doubled with every try before.
pub open spec fn spec_retry_delay_ms(retry_count: u32) -> u64 {
    if retry_count == 0 {
        200
    } else if retry_count == 1 {
        400
    } else {
        800
    }
}

/// How a try at a renegotiation ends.
pub open spec fn spec_renegotiation_step(
    connected: bool,
    signaling_stable: bool,
    retry_count: u32,
) -> RenegotiationStep {
    if !connected {
        RenegotiationStep::NoConnection
    } else if signaling_stable {
        RenegotiationStep::SendOffer
    } else if retry_count < MAX_RENEGOTIATION_RETRIES {
        RenegotiationStep::Deferred { retry_delay_ms: spec_retry_delay_ms(retry_count) }
    } else {
        RenegotiationStep::GivenUp
    }
}

/// What a sink brings about at the peer that subscribes: the sink joins that peer's connection,
/// and a new sink for video asks the publisher for a key frame.
pub open spec fn sink_actions(track: TrackView, target_peer_id: Seq<char>, is_new: bool) -> Seq<
    ServerActionView,
> {
    seq![
        ServerActionView::AddTrack { target_peer_id, sink: track.sink_for(target_peer_id) },
    ] + (if is_new && track.kind == TrackKind::Video {
        seq![
            ServerActionView::SendPli {
                source_peer_id: track.source_peer_id,
                sender_ssrc: PLI_SENDER_SSRC,
                media_ssrc: track.remote_track.ssrc,
            },
        ]
    } else {
        Seq::empty()
    })
}

/// The tracks and the actions while a new peer is given the tracks that exist.
pub struct SeedState {
    pub tracks: TrackManagerView,
    pub actions: Seq<ServerActionView>,
}

/// One track more for the new peer: a sink, if the track is there and is not the peer's own.
pub open spec fn seed_step(state: SeedState, track_id: Seq<char>, peer_id: Seq<char>) -> SeedState {
    if state.tracks.can_subscribe(track_id, peer_id) {
        SeedState {
            tracks: state.tracks.after_subscribe(track_id, peer_id),
            actions: state.actions + sink_actions(
                state.tracks.track(track_id),
                peer_id,
                state.tracks.makes_sink(track_id, peer_id),
            ),
        }
    } else {
        state
    }
}

/// The tracks and the actions after a new peer has been given the tracks `track_ids`, one
/// after the other.
pub open spec fn seed_fold(
    tracks: TrackManagerView,
    track_ids: Seq<Seq<char>>,
    peer_id: Seq<char>,
) -> SeedState
    decreases track_ids.len(),
{
    if track_ids.len() == 0 {
        SeedState { tracks, actions: Seq::empty() }
    } else {
        seed_step(seed_fold(tracks, track_ids.drop_last(), peer_id), track_ids.last(), peer_id)
    }
}

/// Holds of the tracks that a peer of the room `room_id` gets: those whose source is in that
/// room and forwards to the peer.
pub open spec fn admitted_track(rooms: RoomManagerView, peer_id: Seq<char>, room_id: Seq<char>) -> spec_fn(
    TrackView,
) -> bool {
    |t: TrackView|
        rooms.has_peer(t.source_peer_id) && rooms.peer(t.source_peer_id).room_id == room_id
            && rooms.should_forward(t.source_peer_id, peer_id)
}

/// The tracks, the flags and the actions while a new track is handed to the peers.
pub struct ForwardState {
    pub tracks: TrackManagerView,
    pub pending: StrMapView<bool>,
    pub actions: Seq<ServerActionView>,
}

/// One peer more for a new track. A peer that the policy admits, and that is not the source,
/// gets a sink; its flag is set; and a renegotiation is scheduled if the flag was not set.
pub open spec fn forward_step(
    rooms: RoomManagerView,
    state: ForwardState,
    source_peer_id: Seq<char>,
    track_id: Seq<char>,
    target_peer_id: Seq<char>,
) -> ForwardState {
    if target_peer_id != source_peer_id && rooms.should_forward(source_peer_id, target_peer_id)
        && state.tracks.can_subscribe(track_id, target_peer_id) {
        ForwardState {
            tracks: state.tracks.after_subscribe(track_id, target_peer_id),
            pending: state.pending.put(target_peer_id, true),
            actions: state.actions + sink_actions(
                state.tracks.track(track_id),
                target_peer_id,
                state.tracks.makes_sink(track_id, target_peer_id),
            ) + (if state.pending.has(target_peer_id) {
                Seq::empty()
            } else {
                seq![
                    ServerActionView::ScheduleRenegotiation {
                        peer_id: target_peer_id,
                        delay_ms: RENEGOTIATION_DELAY_MS,
                    },
                ]
            }),
        }
    } else {
        state
    }
}

/// The tracks, the flags and the actions after a new track has been handed to the peers
/// `targets`, one after the other.
pub open spec fn forward_fold(
    rooms: RoomManagerView,
    start: ForwardState,
    source_peer_id: Seq<char>,
    track_id: Seq<char>,
    targets: Seq<Seq<char>>,
) -> ForwardState
    decreases targets.len(),
{
    if targets.len() == 0 {
        start
    } else {
        forward_step(
            rooms,
            forward_fold(rooms, start, source_peer_id, track_id, targets.drop_last()),
            source_peer_id,
            track_id,
            targets.last(),
        )
    }
}

fn push_sink_actions(
    actions: &mut Vec<ServerAction>,
    target_peer_id: &str,
    made: (LocalSink, bool, bool, u32, String),
    Ghost(track): Ghost<TrackView>,
)
    requires
        made.0@ == track.sink_for(target_peer_id@),
        made.2 == (track.kind == TrackKind::Video),
        made.3 == track.remote_track.ssrc,
        made.4@ == track.source_peer_id,
    ensures
        action_views(final(actions)@) == action_views(old(actions)@) + sink_actions(
            track,
            target_peer_id@,
            made.1,
        ),
{
    let ghost before = actions@;
    let (sink, is_new, is_video, ssrc, source) = made;
    actions.push(ServerAction::AddTrack { target_peer_id: target_peer_id.to_owned(), sink });
    if is_new && is_video {
        actions.push(
            ServerAction::SendPli {
                source_peer_id: source,
                sender_ssrc: PLI_SENDER_SSRC,
                media_ssrc: ssrc,
            },
        );
    }
    assert(action_views(actions@) =~= action_views(before) + sink_actions(
        track,
        target_peer_id@,
        made.1,
    ));
}

/// Gives a peer a sink of each of the tracks `track_ids`, and says what is to be done with
/// the sinks.
pub fn add_existing_tracks(
    track_manager: &mut TrackManager,
    peer_id: &str,
    track_ids: &Vec<String>,
) -> (actions: Vec<ServerAction>)
    requires
        old(track_manager)@.wf(),
    ensures
        final(track_manager)@.wf(),
        final(track_manager)@ == seed_fold(
            old(track_manager)@,
            text_views(track_ids@),
            peer_id@,
        ).tracks,
        action_views(actions@) == seed_fold(
            old(track_manager)@,
            text_views(track_ids@),
            peer_id@,
        ).actions,
{
    let mut actions: Vec<ServerAction> = Vec::new();
    let ghost start = track_manager@;
    let ghost ids = text_views(track_ids@);
    let mut i: usize = 0;
    assert(ids.take(0) =~= Seq::<Seq<char>>::empty());
    assert(action_views(actions@) =~= Seq::<ServerActionView>::empty());
    while i < track_ids.len()
        invariant
            i <= track_ids.len(),
            ids == text_views(track_ids@),
            track_manager@.wf(),
            track_manager@ == seed_fold(start, ids.take(i as int), peer_id@).tracks,
            action_views(actions@) == seed_fold(start, ids.take(i as int), peer_id@).actions,
        decreases track_ids.len() - i,
    {
        proof {
            assert(ids.take(i + 1).drop_last() =~= ids.take(i as int));
            assert(ids.take(i + 1).last() == track_ids@[i as int]@);
        }
        let ghost before = track_manager@;
        match track_manager.create_local_track_for_peer(track_ids[i].as_str(), peer_id) {
            Some(made) => {
                push_sink_actions(
                    &mut actions,
                    peer_id,
                    made,
                    Ghost(before.track(track_ids@[i as int]@)),
                );
            },
            None => {},
        }
        i += 1;
    }
    assert(ids.take(i as int) =~= ids);
    actions
}

/// Hands a new track of `source_peer_id` to the connected peers that the policy admits, in
/// the order of the connections, and says what is to be done.
pub fn forward_new_track(
    room_manager: &RoomManager,
    track_manager: &mut TrackManager,
    pending: &mut StrMap<bool>,
    connections: &StrMap<Connection>,
    source_peer_id: &str,
    track_id: &str,
) -> (actions: Vec<ServerAction>)
    requires
        room_manager@.wf(),
        old(track_manager)@.wf(),
        old(pending)@.wf(),
    ensures
        final(track_manager)@.wf(),
        final(pending)@.wf(),
        final(track_manager)@ == forward_fold(
            room_manager@,
            ForwardState {
                tracks: old(track_manager)@,
                pending: old(pending)@,
                actions: Seq::empty(),
            },
            source_peer_id@,
            track_id@,
            connections@.keys(),
        ).tracks,
        final(pending)@ == forward_fold(
            room_manager@,
            ForwardState {
                tracks: old(track_manager)@,
                pending: old(pending)@,
                actions: Seq::empty(),
            },
            source_peer_id@,
            track_id@,
            connections@.keys(),
        ).pending,
        action_views(actions@) == forward_fold(
            room_manager@,
            ForwardState {
                tracks: old(track_manager)@,
                pending: old(pending)@,
                actions: Seq::empty(),
            },
            source_peer_id@,
            track_id@,
            connections@.keys(),
        ).actions,
{
    let mut actions: Vec<ServerAction> = Vec::new();
    let ghost start = ForwardState {
        tracks: track_manager@,
        pending: pending@,
        actions: Seq::empty(),
    };
    let ghost keys = connections@.keys();
    let mut i: usize = 0;
    assert(keys.take(0) =~= Seq::<Seq<char>>::empty());
    assert(action_views(actions@) =~= Seq::<ServerActionView>::empty());
    while i < connections.len()
        invariant
            i <= connections@.entries.len(),
            keys == connections@.keys(),
            room_manager@.wf(),
            track_manager@.wf(),
            pending@.wf(),
            track_manager@ == forward_fold(
                room_manager@,
                start,
                source_peer_id@,
                track_id@,
                keys.take(i as int),
            ).tracks,
            pending@ == forward_fold(
                room_manager@,
                start,
                source_peer_id@,
                track_id@,
                keys.take(i as int),
            ).pending,
            action_views(actions@) == forward_fold(
                room_manager@,
                start,
                source_peer_id@,
                track_id@,
                keys.take(i as int),
            ).actions,
        decreases connections@.entries.len() - i,
    {
        let target = connections.key_at(i);
        proof {
            assert(keys.take(i + 1).drop_last() =~= keys.take(i as int));
            assert(keys.take(i + 1).last() == target@);
        }
        let ghost before = track_manager@;
        if !str_eq(target.as_str(), source_peer_id) && room_manager.should_forward_track(
            source_peer_id,
            target.as_str(),
        ) {
            match track_manager.create_local_track_for_peer(track_id, target.as_str()) {
                Some(made) => {
                    push_sink_actions(
                        &mut actions,
                        target.as_str(),
                        made,
                        Ghost(before.track(track_id@)),
                    );
                    let ghost sunk = actions@;
                    if !pending.contains_key(target.as_str()) {
                        actions.push(
                            ServerAction::ScheduleRenegotiation {
                                peer_id: target.clone(),
                                delay_ms: RENEGOTIATION_DELAY_MS,
                            },
                        );
                        assert(action_views(actions@) =~= action_views(sunk) + seq![
                            ServerActionView::ScheduleRenegotiation {
                                peer_id: target@,
                                delay_ms: RENEGOTIATION_DELAY_MS,
                            },
                        ]);
                    } else {
                        assert(action_views(actions@) =~= action_views(sunk)
                            + Seq::<ServerActionView>::empty());
                    }
                    pending.insert(target.clone(), true);
                },
                None => {},
            }
        }
        i += 1;
    }
    assert(keys.take(i as int) =~= keys);
    actions
}

/// While a peer's flag is set, a further track for it schedules no renegotiation: of a burst
/// of tracks only the first one does.
pub proof fn lemma_burst_schedules_once(
    rooms: RoomManagerView,
    state: ForwardState,
    source_peer_id: Seq<char>,
    first_track: Seq<char>,
    second_track: Seq<char>,
    target_peer_id: Seq<char>,
)
    requires
        state.pending.wf(),
    ensures
        ({
            let once = forward_step(rooms, state, source_peer_id, first_track, target_peer_id);
            let twice = forward_step(rooms, once, source_peer_id, second_track, target_peer_id);
            &&& once.actions.len() > state.actions.len() ==> once.pending.has(target_peer_id)
            &&& once.pending.has(target_peer_id) ==> forall|k: int|
                once.actions.len() <= k < twice.actions.len() ==> !(
                #[trigger] twice.actions[k] is ScheduleRenegotiation)
        }),
{
    lemma_strmap_put(state.pending, target_peer_id, true);
}

/// A student whom the proctor's leaving removed from the room.
#[derive(Debug, Clone, PartialEq, Eq)]
pub struct EvictedStudent {
    pub peer_id: String,
    pub wallet: Option<Address>,
    /// Whether the student had a connection.
    pub connected: bool,
}

/// An evicted student as the contracts see it.
pub struct EvictedView {
    pub peer_id: Seq<char>,
    pub wallet: Option<Address>,
    pub connected: bool,
}

impl View for EvictedStudent {
    type V = EvictedView;

    open spec fn view(&self) -> EvictedView {
        EvictedView { peer_id: self.peer_id@, wallet: self.wallet, connected: self.connected }
    }
}

/// The evicted students of a list as the contracts see them.
pub open spec fn evicted_views(s: Seq<EvictedStudent>) -> Seq<EvictedView> {
    s.map_values(|e: EvictedStudent| e@)
}

/// What is known of a peer that has left, for what follows once its recordings have ended.
#[derive(Debug, Clone, PartialEq, Eq)]
pub struct Departure {
    pub peer_id: String,
    pub room_id: String,
    pub role: PeerRole,
    pub name: Option<String>,
    pub wallet: Option<Address>,
    /// The grade that was submitted for the peer, if any.
    pub grade: Option<ExamGrade>,
    /// For a student: the proctor of the room, if the proctor is connected.
    pub proctor_to_tell: Option<String>,
    /// For a proctor: the students that the room listed, in the order of the list.
    pub evicted: Vec<EvictedStudent>,
}

/// A grade as the contracts see it.
pub struct GradeView {
    pub grade_basis_points: u64,
    pub exam_name: Option<Seq<char>>,
}

/// A grade that may be absent, as the contracts see it.
pub open spec fn grade_view(g: Option<ExamGrade>) -> Option<GradeView> {
    match g {
        Some(g) => Some(
            GradeView { grade_basis_points: g.grade_basis_points, exam_name: opt_view(g.exam_name) },
        ),
        None => None,
    }
}

/// A departure as the contracts see it.
pub struct DepartureView {
    pub peer_id: Seq<char>,
    pub room_id: Seq<char>,
    pub role: PeerRole,
    pub name: Option<Seq<char>>,
    pub wallet: Option<Address>,
    pub grade: Option<GradeView>,
    pub proctor_to_tell: Option<Seq<char>>,
    pub evicted: Seq<EvictedView>,
}

impl View for Departure {
    type V = DepartureView;

    open spec fn view(&self) -> DepartureView {
        DepartureView {
            peer_id: self.peer_id@,
            room_id: self.room_id@,
            role: self.role,
            name: opt_view(self.name),
            wallet: self.wallet,
            grade: grade_view(self.grade),
            proctor_to_tell: opt_view(self.proctor_to_tell),
            evicted: evicted_views(self.evicted@),
        }
    }
}

/// A recording that has ended.
#[derive(Debug, Clone, PartialEq, Eq)]
pub struct StoppedRecording {
    pub peer_id: String,
    pub duration_secs: u64,
    /// The content identifier of the artifact, if it was stored.
    pub ipfs_cid: Option<String>,
}

/// An ended recording as the contracts see it.
pub struct StoppedView {
    pub peer_id: Seq<char>,
    pub duration_secs: u64,
    pub ipfs_cid: Option<Seq<char>>,
}

impl View for StoppedRecording {
    type V = StoppedView;

    open spec fn view(&self) -> StoppedView {
        StoppedView {
            peer_id: self.peer_id@,
            duration_secs: self.duration_secs,
            ipfs_cid: opt_view(self.ipfs_cid),
        }
    }
}

/// The ended recordings of a list as the contracts see them.
pub open spec fn stopped_views(s: Seq<StoppedRecording>) -> Seq<StoppedView> {
    s.map_values(|r: StoppedRecording| r@)
}

/// The wallet of an evicted student, if the student is on the list and has one.
pub open spec fn evicted_wallet(evicted: Seq<EvictedView>, peer_id: Seq<char>) -> Option<Address>
    decreases evicted.len(),
{
    if evicted.len() == 0 {
        None
    } else if evicted.last().peer_id == peer_id {
        evicted.last().wallet
    } else {
        evicted_wallet(evicted.drop_last(), peer_id)
    }
}

impl DepartureView {
    /// The wallet of one of those who left: of the peer itself or of an evicted student.
    pub open spec fn wallet_of(self, peer_id: Seq<char>) -> Option<Address> {
        if peer_id == self.peer_id {
            self.wallet
        } else {
            evicted_wallet(self.evicted, peer_id)
        }
    }

    /// The event of one ended recording, if the wallet of its peer is known.
    pub open spec fn stopped_event(self, stopped: StoppedView) -> Seq<ServerActionView> {
        match self.wallet_of(stopped.peer_id) {
            Some(w) => seq![
                ServerActionView::Emit {
                    event: ChainEventView::RecordingStopped {
                        room_id: self.room_id,
                        participant: w@,
                        duration_secs: stopped.duration_secs,
                        ipfs_cid: stopped.ipfs_cid,
                    },
                },
            ],
            None => Seq::empty(),
        }
    }

    /// The events of the ended recordings, in their order.
    pub open spec fn stopped_events(self, stopped: Seq<StoppedView>) -> Seq<ServerActionView>
        decreases stopped.len(),
    {
        if stopped.len() == 0 {
            Seq::empty()
        } else {
            self.stopped_events(stopped.drop_last()) + self.stopped_event(stopped.last())
        }
    }

    /// The event of an evicted student's leaving, if the student's wallet is known.
    pub open spec fn eviction_event(self, student: EvictedView) -> Seq<ServerActionView> {
        match student.wallet {
            Some(w) => seq![
                ServerActionView::Emit {
                    event: ChainEventView::ParticipantLeft {
                        room_id: self.room_id,
                        participant: w@,
                        reason: LeaveReason::RoomClosed,
                    },
                },
            ],
            None => Seq::empty(),
        }
    }

    /// The events of the evicted students' leaving, in the order of the list.
    pub open spec fn eviction_events(self, evicted: Seq<EvictedView>) -> Seq<ServerActionView>
        decreases evicted.len(),
    {
        if evicted.len() == 0 {
            Seq::empty()
        } else {
            self.eviction_events(evicted.drop_last()) + self.eviction_event(evicted.last())
        }
    }

    /// The closing of the connections of the evicted students that had one.
    pub open spec fn eviction_closings(evicted: Seq<EvictedView>) -> Seq<ServerActionView>
        decreases evicted.len(),
    {
        if evicted.len() == 0 {
            Seq::empty()
        } else {
            Self::eviction_closings(evicted.drop_last()) + (if evicted.last().connected {
                seq![ServerActionView::CloseConnection { peer_id: evicted.last().peer_id }]
            } else {
                Seq::empty()
            })
        }
    }

    /// The event of the peer's own leaving, if its wallet is known.
    pub open spec fn left_event(self, reason: LeaveReason) -> Seq<ServerActionView> {
        match self.wallet {
            Some(w) => seq![
                ServerActionView::Emit {
                    event: ChainEventView::ParticipantLeft {
                        room_id: self.room_id,
                        participant: w@,
                        reason,
                    },
                },
            ],
            None => Seq::empty(),
        }
    }

    /// The event of the room's closing, if the proctor's wallet is known.
    pub open spec fn closed_event(self) -> Seq<ServerActionView> {
        match self.wallet {
            Some(w) => seq![
                ServerActionView::Emit {
                    event: ChainEventView::RoomClosed {
                        room_id: self.room_id,
                        reason: RoomCloseReason::ProctorLeft,
                    },
                },
            ],
            None => Seq::empty(),
        }
    }

    /// The event of the student's exam result, if a grade was submitted and the wallet is
    /// known.
    pub open spec fn result_event(self) -> Seq<ServerActionView> {
        match (self.wallet, self.grade) {
            (Some(w), Some(g)) => seq![
                ServerActionView::Emit {
                    event: ChainEventView::CreateExamResult {
                        room_id: self.room_id,
                        participant: w@,
                        grade: g.grade_basis_points,
                        exam_name: text_or_empty(g.exam_name),
                    },
                },
            ],
            _ => Seq::empty(),
        }
    }

    /// The word to the proctor that a student has left, if the proctor is connected.
    pub open spec fn proctor_notice(self) -> Seq<ServerActionView> {
        match self.proctor_to_tell {
            Some(proctor_id) => seq![
                ServerActionView::Notify {
                    peer_id: proctor_id,
                    message: SfuMessageView::ParticipantLeft {
                        room_id: self.room_id,
                        peer_id: self.peer_id,
                        name: self.name,
                    },
                },
            ],
            None => Seq::empty(),
        }
    }

    /// What follows a leaving once the recordings have ended. After a proctor: the events of
    /// the ended recordings, of the proctor's leaving, of each evicted student's leaving and of
    /// the room's closing, and then the closing of the students' connections. After a student:
    /// the exam result, if there is one, before the event of the ended recording; then the
    /// event of the leaving; then the word to the proctor.
    pub open spec fn actions(self, stopped: Seq<StoppedView>) -> Seq<ServerActionView> {
        match self.role {
            PeerRole::Proctor => self.stopped_events(stopped) + self.left_event(
                LeaveReason::ProctorLeft,
            ) + self.eviction_events(self.evicted) + self.closed_event()
                + Self::eviction_closings(self.evicted),
            PeerRole::Student => self.result_event() + self.stopped_events(stopped)
                + self.left_event(LeaveReason::Normal) + self.proctor_notice(),
        }
    }
}

fn find_evicted_wallet(evicted: &Vec<EvictedStudent>, peer_id: &str) -> (w: Option<Address>)
    ensures
        w == evicted_wallet(evicted_views(evicted@), peer_id@),
{
    let ghost views = evicted_views(evicted@);
    let mut i: usize = evicted.len();
    assert(views.take(i as int) =~= views);
    while i > 0
        invariant
            i <= evicted.len(),
            views == evicted_views(evicted@),
            evicted_wallet(views, peer_id@) == evicted_wallet(views.take(i as int), peer_id@),
        decreases i,
    {
        proof {
            assert(views.take(i as int).drop_last() =~= views.take(i - 1));
            assert(views.take(i as int).last() == evicted@[i - 1]@);
        }
        if str_eq(evicted[i - 1].peer_id.as_str(), peer_id) {
            return evicted[i - 1].wallet;
        }
        i -= 1;
    }
    None
}

/// What follows a leaving once the recordings of those who left have ended.
pub fn departure_actions(departure: &Departure, stopped: &Vec<StoppedRecording>) -> (actions: Vec<
    ServerAction,
>)
    ensures
        action_views(actions@) == departure@.actions(stopped_views(stopped@)),
{
    let mut actions: Vec<ServerAction> = Vec::new();
    let ghost d = departure@;
    let ghost ended = stopped_views(stopped@);
    assert(action_views(actions@) =~= Seq::<ServerActionView>::empty());
    let is_proctor = departure.role == PeerRole::Proctor;
    if !is_proctor {
        match (&departure.wallet, &departure.grade) {
            (Some(w), Some(g)) => {
                let exam_name = match &g.exam_name {
                    Some(n) => n.clone(),
                    None => String::new(),
                };
                actions.push(
                    ServerAction::Emit {
                        event: ChainEvent::CreateExamResult {
                            room_id: departure.room_id.clone(),
                            participant: *w,
                            grade: g.grade_basis_points,
                            exam_name,
                        },
                    },
                );
            },
            _ => {},
        }
        assert(action_views(actions@) =~= d.result_event());
    }
    let ghost head = action_views(actions@);
    let mut i: usize = 0;
    assert(ended.take(0) =~= Seq::<StoppedView>::empty());
    assert(action_views(actions@) =~= head + d.stopped_events(ended.take(0)));
    while i < stopped.len()
        invariant
            i <= stopped.len(),
            d == departure@,
            ended == stopped_views(stopped@),
            action_views(actions@) == head + d.stopped_events(ended.take(i as int)),
        decreases stopped.len() - i,
    {
        proof {
            assert(ended.take(i + 1).drop_last() =~= ended.take(i as int));
            assert(ended.take(i + 1).last() == stopped@[i as int]@);
        }
        let item = &stopped[i];
        let wallet = if str_eq(item.peer_id.as_str(), departure.peer_id.as_str()) {
            departure.wallet
        } else {
            find_evicted_wallet(&departure.evicted, item.peer_id.as_str())
        };
        let ghost before = action_views(actions@);
        match wallet {
            Some(w) => {
                actions.push(
                    ServerAction::Emit {
                        event: ChainEvent::RecordingStopped {
                            room_id: departure.room_id.clone(),
                            participant: w,
                            duration_secs: item.duration_secs,
                            ipfs_cid: clone_opt_string(&item.ipfs_cid),
                        },
                    },
                );
            },
            None => {},
        }
        assert(action_views(actions@) =~= before + d.stopped_event(ended[i as int]));
        assert(head + d.stopped_events(ended.take(i as int)) + d.stopped_event(ended[i as int])
            =~= head + (d.stopped_events(ended.take(i as int)) + d.stopped_event(
            ended[i as int],
        )));
        i += 1;
    }
    assert(ended.take(i as int) =~= ended);
    let reason = if is_proctor {
        LeaveReason::ProctorLeft
    } else {
        LeaveReason::Normal
    };
    let ghost before_left = action_views(actions@);
    match departure.wallet {
        Some(w) => {
            actions.push(
                ServerAction::Emit {
                    event: ChainEvent::ParticipantLeft {
                        room_id: departure.room_id.clone(),
                        participant: w,
                        reason,
                    },
                },
            );
        },
        None => {},
    }
    assert(action_views(actions@) =~= before_left + d.left_event(reason));
    if !is_proctor {
        let ghost before_notice = action_views(actions@);
        match &departure.proctor_to_tell {
            Some(proctor_id) => {
                actions.push(
                    ServerAction::Notify {
                        peer_id: proctor_id.clone(),
                        message: SfuMessage::ParticipantLeft {
                            room_id: departure.room_id.clone(),
                            peer_id: departure.peer_id.clone(),
                            name: clone_opt_string(&departure.name),
                        },
                    },
                );
            },
            None => {},
        }
        assert(action_views(actions@) =~= before_notice + d.proctor_notice());
        assert(action_views(actions@) =~= d.actions(ended));
        return actions;
    }
    let ghost evicted = d.evicted;
    let ghost before_evictions = action_views(actions@);
    let mut k: usize = 0;
    assert(evicted.take(0) =~= Seq::<EvictedView>::empty());
    assert(action_views(actions@) =~= before_evictions + d.eviction_events(evicted.take(0)));
    while k < departure.evicted.len()
        invariant
            k <= departure.evicted.len(),
            d == departure@,
            evicted == d.evicted,
            action_views(actions@) == before_evictions + d.eviction_events(
                evicted.take(k as int),
            ),
        decreases departure.evicted.len() - k,
    {
        proof {
            assert(evicted.take(k + 1).drop_last() =~= evicted.take(k as int));
            assert(evicted.take(k + 1).last() == departure.evicted@[k as int]@);
        }
        let ghost before = action_views(actions@);
        match departure.evicted[k].wallet {
            Some(w) => {
                actions.push(
                    ServerAction::Emit {
                        event: ChainEvent::ParticipantLeft {
                            room_id: departure.room_id.clone(),
                            participant: w,
                            reason: LeaveReason::RoomClosed,
                        },
                    },
                );
            },
            None => {},
        }
        assert(action_views(actions@) =~= before + d.eviction_event(evicted[k as int]));
        assert(before_evictions + d.eviction_events(evicted.take(k as int)) + d.eviction_event(
            evicted[k as int],
        ) =~= before_evictions + (d.eviction_events(evicted.take(k as int)) + d.eviction_event(
            evicted[k as int],
        )));
        k += 1;
    }
    assert(evicted.take(k as int) =~= evicted);
    let ghost before_closed = action_views(actions@);
    match departure.wallet {
        Some(_w) => {
            actions.push(
                ServerAction::Emit {
                    event: ChainEvent::RoomClosed {
                        room_id: departure.room_id.clone(),
                        reason: RoomCloseReason::ProctorLeft,
                    },
                },
            );
        },
        None => {},
    }
    assert(action_views(actions@) =~= before_closed + d.closed_event());
    let ghost before_closings = action_views(actions@);
    let mut m: usize = 0;
    assert(action_views(actions@) =~= before_closings + DepartureView::eviction_closings(
        evicted.take(0),
    ));
    while m < departure.evicted.len()
        invariant
            m <= departure.evicted.len(),
            d == departure@,
            evicted == d.evicted,
            action_views(actions@) == before_closings + DepartureView::eviction_closings(
                evicted.take(m as int),
            ),
        decreases departure.evicted.len() - m,
    {
        proof {
            assert(evicted.take(m + 1).drop_last() =~= evicted.take(m as int));
            assert(evicted.take(m + 1).last() == departure.evicted@[m as int]@);
        }
        let ghost before = action_views(actions@);
        if departure.evicted[m].connected {
            actions.push(
                ServerAction::CloseConnection { peer_id: departure.evicted[m].peer_id.clone() },
            );
            assert(action_views(actions@) =~= before + seq![
                ServerActionView::CloseConnection { peer_id: evicted[m as int].peer_id },
            ]);
        }
        assert(action_views(actions@) =~= before_closings + DepartureView::eviction_closings(
            evicted.take(m + 1),
        ));
        m += 1;
    }
    assert(evicted.take(m as int) =~= evicted);
    assert(action_views(actions@) =~= d.actions(ended));
    actions
}

/// The state of the server.
pub struct SfuServer {
    pub room_manager: RoomManager,
    pub track_manager: TrackManager,
    pub recording_manager: RecordingManager,
    /// The peers that have a connection, in the order in which they were added.
    pub connections: StrMap<Connection>,
    /// The students that wait for admission.
    pub pending_students: StrMap<PendingStudent>,
    /// How many tracks each peer has published.
    pub peers_with_tracks: StrMap<usize>,
    /// The peers for which a renegotiation is scheduled and has not begun.
    pub pending_renegotiations: StrMap<bool>,
    /// The candidates that wait for their peer's answer, in the order of arrival.
    pub pending_ice_candidates: Vec<QueuedCandidate>,
    /// The wallets of the peers that named one.
    pub wallets: StrMap<Address>,
    /// The grades that were submitted.
    pub grades: StrMap<ExamGrade>,
}

/// The state of the server as the contracts see it.
pub struct ServerView {
    pub rooms: RoomManagerView,
    pub tracks: TrackManagerView,
    pub recordings: RecordingManagerView,
    pub connections: StrMapView<Connection>,
    pub pending_students: StrMapView<PendingStudent>,
    pub peers_with_tracks: StrMapView<usize>,
    pub pending_renegotiations: StrMapView<bool>,
    pub pending_ice: Seq<(Seq<char>, IceCandidateView)>,
    pub wallets: StrMapView<Address>,
    pub grades: StrMapView<ExamGrade>,
}

impl View for SfuServer {
    type V = ServerView;

    open spec fn view(&self) -> ServerView {
        ServerView {
            rooms: self.room_manager@,
            tracks: self.track_manager@,
            recordings: self.recording_manager@,
            connections: self.connections@,
            pending_students: self.pending_students@,
            peers_with_tracks: self.peers_with_tracks@,
            pending_renegotiations: self.pending_renegotiations@,
            pending_ice: queue_view(self.pending_ice_candidates@),
            wallets: self.wallets@,
            grades: self.grades@,
        }
    }
}

/// The text that goes with an approved request to join.
pub open spec fn approved_text() -> Seq<char> {
    "Join request approved! Connecting to room..."@
}

/// The text that goes with a denied request to join.
pub open spec fn denied_text() -> Seq<char> {
    "Join request denied by proctor"@
}

impl ServerView {
    /// Every part of the state is well formed.
    pub open spec fn wf(self) -> bool {
        &&& self.rooms.wf()
        &&& self.tracks.wf()
        &&& self.recordings.wf()
        &&& self.connections.wf()
        &&& self.pending_students.wf()
        &&& self.peers_with_tracks.wf()
        &&& self.pending_renegotiations.wf()
        &&& self.wallets.wf()
        &&& self.grades.wf()
    }

    /// Whether the proctor of a room has published a track.
    pub open spec fn proctor_ready(self, room_id: Seq<char>) -> bool {
        &&& self.rooms.has_room(room_id)
        &&& self.peers_with_tracks.has(self.rooms.room(room_id).proctor_id)
        &&& self.peers_with_tracks.value(self.rooms.room(room_id).proctor_id) >= 1
    }

    /// What follows the making of a room: the proctor is recorded, and the ledger hears of
    /// the room if the proctor's wallet is known.
    pub open spec fn room_opened_actions(
        room_id: Seq<char>,
        proctor_id: Seq<char>,
        proctor_name: Option<Seq<char>>,
        wallet: Option<Address>,
    ) -> Seq<ServerActionView> {
        seq![ServerActionView::StartRecording { room_id, peer_id: proctor_id }] + (match wallet {
            Some(w) => seq![
                ServerActionView::Emit {
                    event: ChainEventView::RoomCreated { room_id, proctor: w@, proctor_name },
                },
            ],
            None => Seq::empty(),
        })
    }

    /// The wallets after a peer has come with or without one.
    pub open spec fn wallets_with(self, peer_id: Seq<char>, wallet: Option<Address>) -> StrMapView<
        Address,
    > {
        match wallet {
            Some(w) => self.wallets.put(peer_id, w),
            None => self.wallets,
        }
    }

    /// The ids of the tracks that a peer of the room `room_id` gets when it joins.
    pub open spec fn tracks_for_peer(self, peer_id: Seq<char>, room_id: Seq<char>) -> Seq<
        Seq<char>,
    > {
        self.tracks.tracks.filter(admitted_track(self.rooms, peer_id, room_id)).map_values(
            track_id_of(),
        )
    }

    /// The tracks and the actions after a new peer has been given the tracks that it gets.
    pub open spec fn seeded(self, peer_id: Seq<char>, room_id: Seq<char>) -> SeedState {
        seed_fold(self.tracks, self.tracks_for_peer(peer_id, room_id), peer_id)
    }

    /// The state after a peer has got its connection.
    pub open spec fn with_connection(self, peer_id: Seq<char>, room_id: Seq<char>) -> ServerView {
        ServerView {
            connections: self.connections.put(
                peer_id,
                Connection { remote_description_set: false },
            ),
            tracks: self.seeded(peer_id, room_id).tracks,
            ..self
        }
    }

    /// What is to be done for a peer that gets its connection: build it, add the sinks of the
    /// tracks that the peer gets, and send the first offer.
    pub open spec fn connection_actions(self, peer_id: Seq<char>, room_id: Seq<char>) -> Seq<
        ServerActionView,
    > {
        seq![ServerActionView::CreateConnection { peer_id }] + self.seeded(
            peer_id,
            room_id,
        ).actions + seq![ServerActionView::SendOffer { peer_id }]
    }

    /// The state after a student has been let into the registry, with or without a wallet.
    pub open spec fn with_student(
        self,
        peer_id: Seq<char>,
        room_id: Seq<char>,
        name: Option<Seq<char>>,
        wallet: Option<Address>,
    ) -> ServerView {
        ServerView {
            rooms: self.rooms.after_join(room_id, peer_id, name),
            wallets: self.wallets_with(peer_id, wallet),
            ..self
        }
    }

    /// What is to be done for a student who has been let into the registry: the student is
    /// recorded, and the ledger hears of the student if the wallet is known.
    pub open spec fn student_actions(
        peer_id: Seq<char>,
        room_id: Seq<char>,
        name: Option<Seq<char>>,
        wallet: Option<Address>,
    ) -> Seq<ServerActionView> {
        seq![ServerActionView::StartRecording { room_id, peer_id }] + (match wallet {
            Some(w) => seq![
                ServerActionView::Emit {
                    event: ChainEventView::ParticipantJoined {
                        room_id,
                        participant: w@,
                        name,
                        role: Role::Student,
                    },
                },
            ],
            None => Seq::empty(),
        })
    }

    /// The count of a peer's tracks after one more, never beyond what the machine counts.
    pub open spec fn next_track_count(self, peer_id: Seq<char>) -> usize {
        if !self.peers_with_tracks.has(peer_id) {
            1
        } else if self.peers_with_tracks.value(peer_id) < usize::MAX {
            (self.peers_with_tracks.value(peer_id) + 1) as usize
        } else {
            usize::MAX
        }
    }

    /// The tracks, the flags and the actions after a new track has been handed to the
    /// connected peers.
    pub open spec fn forwarded(self, source_peer_id: Seq<char>, track_id: Seq<char>) -> ForwardState {
        forward_fold(
            self.rooms,
            ForwardState {
                tracks: self.tracks,
                pending: self.pending_renegotiations,
                actions: Seq::empty(),
            },
            source_peer_id,
            track_id,
            self.connections.keys(),
        )
    }

    /// The wallet of a peer, if it is known.
    pub open spec fn wallet_of(self, peer_id: Seq<char>) -> Option<Address> {
        if self.wallets.has(peer_id) {
            Some(self.wallets.value(peer_id))
        } else {
            None
        }
    }

    /// The grade that was submitted for a peer, if any.
    pub open spec fn grade_of(self, peer_id: Seq<char>) -> Option<GradeView> {
        if self.grades.has(peer_id) {
            grade_view(Some(self.grades.value(peer_id)))
        } else {
            None
        }
    }

    /// The state without what the server keeps of one peer beside the registry: its
    /// connection, the tracks that it published, the sinks that it subscribed with, its
    /// waiting candidates, its flag, its wallet and its grade.
    pub open spec fn purge(self, peer_id: Seq<char>) -> ServerView {
        ServerView {
            connections: self.connections.delete(peer_id),
            tracks: self.tracks.without_source(peer_id).without_subscriber(peer_id),
            pending_ice: self.pending_ice.filter(queued_for_others(peer_id)),
            pending_renegotiations: self.pending_renegotiations.delete(peer_id),
            wallets: self.wallets.delete(peer_id),
            grades: self.grades.delete(peer_id),
            ..self
        }
    }

    /// The state after `purge` for each of the peers, one after the other.
    pub open spec fn purge_all(self, peer_ids: Seq<Seq<char>>) -> ServerView
        decreases peer_ids.len(),
    {
        if peer_ids.len() == 0 {
            self
        } else {
            self.purge_all(peer_ids.drop_last()).purge(peer_ids.last())
        }
    }

    /// What is noted of a student whom the proctor's leaving removes.
    pub open spec fn evicted_of(self) -> spec_fn(Seq<char>) -> EvictedView {
        |student_id: Seq<char>|
            EvictedView {
                peer_id: student_id,
                wallet: self.wallet_of(student_id),
                connected: self.connections.has(student_id),
            }
    }

    /// The students that leave with a peer: those of the room, if the peer is its proctor.
    pub open spec fn leaving_students(self, peer_id: Seq<char>) -> Seq<Seq<char>> {
        if self.rooms.has_peer(peer_id) && self.rooms.peer(peer_id).role == PeerRole::Proctor {
            self.rooms.room(self.rooms.peer(peer_id).room_id).students
        } else {
            Seq::empty()
        }
    }

    /// The proctor to whom a student's leaving is told: the proctor of the student's room, if
    /// connected.
    pub open spec fn proctor_to_tell(self, peer_id: Seq<char>) -> Option<Seq<char>> {
        let p = self.rooms.peer(peer_id);
        if self.rooms.has_peer(peer_id) && p.role == PeerRole::Student && self.rooms.has_room(
            p.room_id,
        ) && self.connections.has(self.rooms.room(p.room_id).proctor_id) {
            Some(self.rooms.room(p.room_id).proctor_id)
        } else {
            None
        }
    }

    /// What is known of a peer at the time of its leaving; nothing of a peer that is in no
    /// room.
    pub open spec fn departure(self, peer_id: Seq<char>) -> Option<DepartureView> {
        if self.rooms.has_peer(peer_id) {
            let p = self.rooms.peer(peer_id);
            Some(
                DepartureView {
                    peer_id,
                    room_id: p.room_id,
                    role: p.role,
                    name: p.name,
                    wallet: self.wallet_of(peer_id),
                    grade: self.grade_of(peer_id),
                    proctor_to_tell: self.proctor_to_tell(peer_id),
                    evicted: self.leaving_students(peer_id).map_values(self.evicted_of()),
                },
            )
        } else {
            None
        }
    }

    /// The state after a peer has left: it is out of the registry, with the room and its
    /// students if it was the proctor, and nothing else is kept of any of those who left.
    pub open spec fn after_leave(self, peer_id: Seq<char>) -> ServerView {
        (ServerView { rooms: self.rooms.after_remove(peer_id), ..self }).purge(peer_id).purge_all(
            self.leaving_students(peer_id),
        )
    }

    /// What is to be done at once when a peer leaves: its connection is closed, if it had one,
    /// and the recordings end: all of the room after the proctor, the peer's own after a
    /// student.
    pub open spec fn leave_actions(self, peer_id: Seq<char>) -> Seq<ServerActionView> {
        (if self.connections.has(peer_id) {
            seq![ServerActionView::CloseConnection { peer_id }]
        } else {
            Seq::empty()
        }) + (if !self.rooms.has_peer(peer_id) {
            Seq::empty()
        } else if self.rooms.peer(peer_id).role == PeerRole::Proctor {
            seq![
                ServerActionView::StopRoomRecordings { room_id: self.rooms.peer(peer_id).room_id },
            ]
        } else {
            seq![
                ServerActionView::StopRecording {
                    room_id: self.rooms.peer(peer_id).room_id,
                    peer_id,
                },
            ]
        })
    }

    /// The queue with one candidate more, if the candidate has to wait: its peer is connected
    /// and has not had its answer applied.
    pub open spec fn candidate_waits(self, peer_id: Seq<char>) -> bool {
        self.connections.has(peer_id) && !self.connections.value(peer_id).remote_description_set
    }
}

impl ServerView {
    /// Whether the server keeps nothing of a peer beside the registry: no connection, no track
    /// that the peer published, no sink that it subscribed with, no waiting candidate, no
    /// flag, no wallet and no grade.
    pub open spec fn forgotten(self, peer_id: Seq<char>) -> bool {
        &&& !self.connections.has(peer_id)
        &&& !self.pending_renegotiations.has(peer_id)
        &&& !self.wallets.has(peer_id)
        &&& !self.grades.has(peer_id)
        &&& forall|t: TrackView| #[trigger] self.tracks.tracks.contains(t) ==> t.source_peer_id != peer_id
        &&& forall|t: TrackView, k: SinkView|
            #[trigger] self.tracks.tracks.contains(t) && #[trigger] t.local_tracks.contains(k)
                ==> k.subscriber_id != peer_id
        &&& forall|e: (Seq<char>, IceCandidateView)| #[trigger]
            self.pending_ice.contains(e) ==> e.0 != peer_id
    }
}

/// After `purge` the state is well formed and nothing is kept of the peer; and what was
/// forgotten before stays forgotten.
pub proof fn lemma_purge_forgets(state: ServerView, peer_id: Seq<char>, other: Seq<char>)
    requires
        state.wf(),
    ensures
        state.purge(peer_id).wf(),
        state.purge(peer_id).forgotten(peer_id),
        state.forgotten(other) ==> state.purge(peer_id).forgotten(other),
{
    let after = state.purge(peer_id);
    crate::strmap::lemma_strmap_delete(state.connections, peer_id);
    crate::strmap::lemma_strmap_delete(state.pending_renegotiations, peer_id);
    crate::strmap::lemma_strmap_delete(state.wallets, peer_id);
    crate::strmap::lemma_strmap_delete(state.grades, peer_id);
    crate::sfu::track_manager::lemma_without_source_wf(state.tracks, peer_id);
    crate::seq_lemmas::lemma_filter_members(
        state.tracks.tracks,
        crate::sfu::track_manager::track_not_from(peer_id),
    );
    crate::seq_lemmas::lemma_filter_members(state.pending_ice, queued_for_others(peer_id));
    let kept = state.tracks.without_source(peer_id);
    crate::sfu::track_manager::lemma_without_subscriber_wf(kept, peer_id);
    assert forall|t: TrackView| #[trigger] after.tracks.tracks.contains(t) implies exists|
        u: TrackView,
    |
        #[trigger] state.tracks.tracks.contains(u) && u.source_peer_id != peer_id
            && t.source_peer_id == u.source_peer_id && (forall|k: SinkView| #[trigger]
            t.local_tracks.contains(k) ==> u.local_tracks.contains(k)) by {
        let i = choose|i: int| 0 <= i < after.tracks.tracks.len() && after.tracks.tracks[i] == t;
        let u = kept.tracks[i];
        assert(kept.tracks.contains(u));
        assert(t == crate::sfu::track_manager::drop_sinks_of(peer_id)(u));
        crate::seq_lemmas::lemma_filter_members(
            u.local_tracks,
            crate::sfu::track_manager::sink_not_for(peer_id),
        );
    }
}

/// After `purge_all` the state is well formed and nothing is kept of any of the peers; and
/// what was forgotten before stays forgotten.
pub proof fn lemma_purge_all_forgets(state: ServerView, peer_ids: Seq<Seq<char>>, other: Seq<char>)
    requires
        state.wf(),
    ensures
        state.purge_all(peer_ids).wf(),
        forall|k: int|
            0 <= k < peer_ids.len() ==> state.purge_all(peer_ids).forgotten(
                #[trigger] peer_ids[k],
            ),
        state.forgotten(other) ==> state.purge_all(peer_ids).forgotten(other),
    decreases peer_ids.len(),
{
    if peer_ids.len() > 0 {
        let front = peer_ids.drop_last();
        let before = state.purge_all(front);
        lemma_purge_all_forgets(state, front, other);
        lemma_purge_forgets(before, peer_ids.last(), other);
        assert forall|k: int| 0 <= k < peer_ids.len() implies state.purge_all(
            peer_ids,
        ).forgotten(#[trigger] peer_ids[k]) by {
            if k < front.len() {
                assert(front[k] == peer_ids[k]);
                lemma_purge_forgets(before, peer_ids.last(), peer_ids[k]);
            }
        }
    }
}

/// When a peer has left, the state is well formed, the peer is in no room, and the server
/// keeps nothing of it; and if the peer was a proctor, the room is gone, and its students
/// are in no room and the server keeps nothing of them.
pub proof fn lemma_leave_forgets(state: ServerView, peer_id: Seq<char>)
    requires
        state.wf(),
    ensures
        state.after_leave(peer_id).wf(),
        !state.after_leave(peer_id).rooms.has_peer(peer_id),
        state.after_leave(peer_id).forgotten(peer_id),
        forall|k: int|
            0 <= k < state.leaving_students(peer_id).len() ==> {
                &&& state.after_leave(peer_id).forgotten(
                    #[trigger] state.leaving_students(peer_id)[k],
                )
                &&& !state.after_leave(peer_id).rooms.has_peer(
                    state.leaving_students(peer_id)[k],
                )
            },
        state.rooms.has_peer(peer_id) && state.rooms.peer(peer_id).role == PeerRole::Proctor
            ==> !state.after_leave(peer_id).rooms.has_room(state.rooms.peer(peer_id).room_id),
{
    let base = ServerView { rooms: state.rooms.after_remove(peer_id), ..state };
    let students = state.leaving_students(peer_id);
    if state.rooms.has_peer(peer_id) {
        crate::sfu::room::lemma_without_peer_wf(state.rooms, peer_id);
    }
    crate::sfu::room::lemma_remove_twice(state.rooms, peer_id);
    lemma_purge_forgets(base, peer_id, peer_id);
    lemma_purge_all_forgets(base.purge(peer_id), students, peer_id);
    assert(state.after_leave(peer_id).rooms == base.rooms) by {
        lemma_purge_all_keeps_rooms(base.purge(peer_id), students);
    }
    if state.rooms.has_peer(peer_id) && state.rooms.peer(peer_id).role == PeerRole::Proctor {
        crate::sfu::room::lemma_proctor_leave_closes_room(state.rooms, peer_id);
        assert forall|k: int| 0 <= k < students.len() implies !base.rooms.has_peer(
            #[trigger] students[k],
        ) by {
            assert(students.contains(students[k]));
        }
    }
}

/// `purge_all` leaves the registry as it is.
pub proof fn lemma_purge_all_keeps_rooms(state: ServerView, peer_ids: Seq<Seq<char>>)
    ensures
        state.purge_all(peer_ids).rooms == state.rooms,
        state.purge_all(peer_ids).recordings == state.recordings,
        state.purge_all(peer_ids).pending_students == state.pending_students,
        state.purge_all(peer_ids).peers_with_tracks == state.peers_with_tracks,
    decreases peer_ids.len(),
{
    if peer_ids.len() > 0 {
        lemma_purge_all_keeps_rooms(state, peer_ids.drop_last());
    }
}

impl SfuServer {
    /// A server without rooms, peers or tracks, that records under the given directory.
    pub fn new(recording_output_dir: &str) -> (s: SfuServer)
        ensures
            s@.wf(),
            s@.recordings.recordings.len() == 0,
            s@.recordings.output_dir == recording_output_dir@,
            s@.rooms.rooms.len() == 0,
            s@.rooms.peers.len() == 0,
            s@.tracks.tracks.len() == 0,
            s@.connections.entries.len() == 0,
            s@.pending_students.entries.len() == 0,
            s@.peers_with_tracks.entries.len() == 0,
            s@.pending_renegotiations.entries.len() == 0,
            s@.pending_ice.len() == 0,
            s@.wallets.entries.len() == 0,
            s@.grades.entries.len() == 0,
    {
        SfuServer {
            room_manager: RoomManager::new(),
            track_manager: TrackManager::new(),
            recording_manager: RecordingManager::new(recording_output_dir),
            connections: StrMap::new(),
            pending_students: StrMap::new(),
            peers_with_tracks: StrMap::new(),
            pending_renegotiations: StrMap::new(),
            pending_ice_candidates: Vec::new(),
            wallets: StrMap::new(),
            grades: StrMap::new(),
        }
    }

    /// Makes a room for a proctor. What it returns beside the room's id is to be done next.
    pub fn create_room(
        &mut self,
        proctor_id: String,
        proctor_name: Option<String>,
        wallet: Option<Address>,
    ) -> (res: Result<(String, Vec<ServerAction>), SfuError>)
        requires
            old(self)@.wf(),
        ensures
            final(self)@.wf(),
            match res {
                Ok(made) => {
                    &&& !old(self)@.rooms.has_peer(proctor_id@)
                    &&& !old(self)@.rooms.has_room(made.0@)
                    &&& final(self)@.rooms.rooms.len() == old(self)@.rooms.rooms.len() + 1
                    &&& final(self)@ == (ServerView {
                        rooms: old(self)@.rooms.with_room(
                            made.0@,
                            proctor_id@,
                            opt_view(proctor_name),
                            final(self)@.rooms.rooms.last().created_at,
                        ),
                        wallets: old(self)@.wallets_with(proctor_id@, wallet),
                        ..old(self)@
                    })
                    &&& action_views(made.1@) == ServerView::room_opened_actions(
                        made.0@,
                        proctor_id@,
                        opt_view(proctor_name),
                        wallet,
                    )
                },
                Err(SfuError::PeerAlreadyExists(e)) => {
                    &&& old(self)@.rooms.has_peer(proctor_id@)
                    &&& e@ == proctor_id@
                    &&& final(self)@ == old(self)@
                },
                Err(SfuError::RoomAlreadyExists(e)) => {
                    &&& !old(self)@.rooms.has_peer(proctor_id@)
                    &&& old(self)@.rooms.has_room(e@)
                    &&& final(self)@ == old(self)@
                },
                Err(_) => false,
            },
            !old(self)@.rooms.has_peer(proctor_id@) && old(self)@.rooms.rooms.len() == 0
                ==> res is Ok,
    {
        let proctor = proctor_id.clone();
        let name = clone_opt_string(&proctor_name);
        match self.room_manager.create_room(proctor_id, proctor_name) {
            Err(e) => Err(e),
            Ok(room_id) => {
                let mut actions: Vec<ServerAction> = Vec::new();
                actions.push(
                    ServerAction::StartRecording {
                        room_id: room_id.clone(),
                        peer_id: proctor.clone(),
                    },
                );
                match wallet {
                    Some(w) => {
                        actions.push(
                            ServerAction::Emit {
                                event: ChainEvent::RoomCreated {
                                    room_id: room_id.clone(),
                                    proctor: w,
                                    proctor_name: name,
                                },
                            },
                        );
                        self.wallets.insert(proctor, w);
                    },
                    None => {},
                }
                assert(action_views(actions@) =~= ServerView::room_opened_actions(
                    room_id@,
                    proctor_id@,
                    opt_view(proctor_name),
                    wallet,
                ));
                Ok((room_id, actions))
            },
        }
    }

    /// What follows the start of a peer's recording: the ledger hears of it if the peer's
    /// wallet is known.
    pub fn recording_started(&self, room_id: &str, peer_id: &str) -> (actions: Vec<ServerAction>)
        requires
            self@.wf(),
        ensures
            action_views(actions@) == (if self@.wallets.has(peer_id@) {
                seq![
                    ServerActionView::Emit {
                        event: ChainEventView::RecordingStarted {
                            room_id: room_id@,
                            participant: self@.wallets.value(peer_id@)@,
                        },
                    },
                ]
            } else {
                Seq::empty()
            }),
    {
        let mut actions: Vec<ServerAction> = Vec::new();
        match self.wallets.get(peer_id) {
            Some(w) => {
                actions.push(
                    ServerAction::Emit {
                        event: ChainEvent::RecordingStarted {
                            room_id: room_id.to_owned(),
                            participant: *w,
                        },
                    },
                );
                assert(action_views(actions@) =~= seq![
                    ServerActionView::Emit {
                        event: ChainEventView::RecordingStarted {
                            room_id: room_id@,
                            participant: self@.wallets.value(peer_id@)@,
                        },
                    },
                ]);
            },
            None => {
                assert(action_views(actions@) =~= Seq::<ServerActionView>::empty());
            },
        }
        actions
    }

    /// Whether the proctor of a room has published a track.
    pub fn is_proctor_ready(&self, room_id: &str) -> (ready: bool)
        requires
            self@.wf(),
        ensures
            ready == self@.proctor_ready(room_id@),
    {
        match self.room_manager.get_room_proctor(room_id) {
            None => false,
            Some(proctor_id) => match self.peers_with_tracks.get(proctor_id.as_str()) {
                Some(count) => *count >= 1,
                None => false,
            },
        }
    }

    /// What a student who wants to join a room does after `retries` waits.
    pub fn student_wait_step(&self, room_id: &str, retries: u32) -> (step: StudentWait)
        requires
            self@.wf(),
        ensures
            step == spec_student_wait(self@.proctor_ready(room_id@), retries),
    {
        if self.is_proctor_ready(room_id) {
            StudentWait::Proceed { proctor_ready: true }
        } else if retries < STUDENT_WAIT_ATTEMPTS {
            StudentWait::Sleep { ms: STUDENT_WAIT_MS, retries: retries + 1 }
        } else {
            StudentWait::Proceed { proctor_ready: false }
        }
    }

    /// Notes a student who waits for admission.
    pub fn track_pending_student(&mut self, student_peer_id: String, wallet: Option<Address>)
        requires
            old(self)@.wf(),
        ensures
            final(self)@.wf(),
            final(self)@ == (ServerView {
                pending_students: old(self)@.pending_students.put(
                    student_peer_id@,
                    PendingStudent { wallet },
                ),
                ..old(self)@
            }),
    {
        self.pending_students.insert(student_peer_id, PendingStudent { wallet });
    }

    /// Forgets a student who waited for admission.
    pub fn remove_pending_student(&mut self, student_peer_id: &str)
        requires
            old(self)@.wf(),
        ensures
            final(self)@.wf(),
            final(self)@ == (ServerView {
                pending_students: old(self)@.pending_students.delete(student_peer_id@),
                ..old(self)@
            }),
    {
        let _ = self.pending_students.remove(student_peer_id);
    }

    /// Hands a student's request for admission on to the proctor of the room. The room must
    /// exist and its proctor must be connected.
    pub fn forward_join_request(
        &self,
        room_id: String,
        student_peer_id: String,
        student_name: Option<String>,
        role: String,
        wallet: Option<String>,
    ) -> (res: Result<Vec<ServerAction>, SfuError>)
        requires
            self@.wf(),
        ensures
            match res {
                Ok(actions) => {
                    &&& self@.rooms.has_room(room_id@)
                    &&& self@.connections.has(self@.rooms.room(room_id@).proctor_id)
                    &&& action_views(actions@) == seq![
                        ServerActionView::Notify {
                            peer_id: self@.rooms.room(room_id@).proctor_id,
                            message: SfuMessageView::JoinRequest {
                                room_id: room_id@,
                                peer_id: student_peer_id@,
                                name: opt_view(student_name),
                                role: role@,
                                wallet: opt_view(wallet),
                            },
                        },
                    ]
                },
                Err(SfuError::NoProctor(e)) => e@ == room_id@ && !(self@.rooms.has_room(room_id@)
                    && self@.connections.has(self@.rooms.room(room_id@).proctor_id)),
                Err(_) => false,
            },
    {
        match self.room_manager.get_room_proctor(room_id.as_str()) {
            None => Err(SfuError::NoProctor(room_id)),
            Some(proctor_id) => {
                if !self.connections.contains_key(proctor_id.as_str()) {
                    return Err(SfuError::NoProctor(room_id));
                }
                let mut actions: Vec<ServerAction> = Vec::new();
                actions.push(
                    ServerAction::Notify {
                        peer_id: proctor_id,
                        message: SfuMessage::JoinRequest {
                            room_id,
                            peer_id: student_peer_id,
                            name: student_name,
                            role,
                            wallet,
                        },
                    },
                );
                assert(action_views(actions@) =~= seq![actions@[0]@]);
                Ok(actions)
            },
        }
    }

    /// Tells a student the proctor's answer to the request for admission. The student must be
    /// connected or wait for admission.
    pub fn send_join_response(&self, room_id: String, student_peer_id: String, approved: bool) -> (res:
        Result<Vec<ServerAction>, SfuError>)
        ensures
            match res {
                Ok(actions) => {
                    &&& self@.connections.has(student_peer_id@) || self@.pending_students.has(
                        student_peer_id@,
                    )
                    &&& action_views(actions@) == seq![
                        ServerActionView::Notify {
                            peer_id: student_peer_id@,
                            message: if approved {
                                SfuMessageView::JoinApproved {
                                    room_id: room_id@,
                                    message: approved_text(),
                                }
                            } else {
                                SfuMessageView::JoinDenied {
                                    room_id: room_id@,
                                    message: denied_text(),
                                }
                            },
                        },
                    ]
                },
                Err(SfuError::PeerNotFound(e)) => e@ == student_peer_id@
                    && !self@.connections.has(student_peer_id@) && !self@.pending_students.has(
                    student_peer_id@,
                ),
                Err(_) => false,
            },
    {
        if !self.connections.contains_key(student_peer_id.as_str())
            && !self.pending_students.contains_key(student_peer_id.as_str()) {
            return Err(SfuError::PeerNotFound(student_peer_id));
        }
        let message = if approved {
            SfuMessage::JoinApproved {
                room_id,
                message: String::from_str("Join request approved! Connecting to room..."),
            }
        } else {
            SfuMessage::JoinDenied {
                room_id,
                message: String::from_str("Join request denied by proctor"),
            }
        };
        let mut actions: Vec<ServerAction> = Vec::new();
        actions.push(ServerAction::Notify { peer_id: student_peer_id, message });
        assert(action_views(actions@) =~= seq![actions@[0]@]);
        Ok(actions)
    }

    /// Takes a candidate of a peer. While the peer's answer has not been applied the candidate
    /// waits in the queue; after that it goes to the connection at once. A candidate of a
    /// peer without connection is dropped.
    pub fn handle_ice_candidate(
        &mut self,
        peer_id: &str,
        candidate: &str,
        sdp_mid: Option<String>,
        sdp_mline_index: Option<u16>,
    ) -> (actions: Vec<ServerAction>)
        requires
            old(self)@.wf(),
        ensures
            final(self)@.wf(),
            final(self)@ == (ServerView {
                pending_ice: if old(self)@.candidate_waits(peer_id@) {
                    old(self)@.pending_ice.push(
                        (
                            peer_id@,
                            IceCandidateView {
                                candidate: candidate@,
                                sdp_mid: opt_view(sdp_mid),
                                sdp_mline_index,
                            },
                        ),
                    )
                } else {
                    old(self)@.pending_ice
                },
                ..old(self)@
            }),
            action_views(actions@) == (if old(self)@.connections.has(peer_id@)
                && !old(self)@.candidate_waits(peer_id@) {
                seq![
                    ServerActionView::AddIceCandidate {
                        peer_id: peer_id@,
                        candidate: IceCandidateView {
                            candidate: candidate@,
                            sdp_mid: opt_view(sdp_mid),
                            sdp_mline_index,
                        },
                    },
                ]
            } else {
                Seq::empty()
            }),
    {
        let mut actions: Vec<ServerAction> = Vec::new();
        let waits = match self.connections.get(peer_id) {
            None => {
                assert(action_views(actions@) =~= Seq::<ServerActionView>::empty());
                return actions;
            },
            Some(connection) => !connection.remote_description_set,
        };
        let item = IceCandidate { candidate: candidate.to_owned(), sdp_mid, sdp_mline_index };
        if waits {
            let ghost before = self.pending_ice_candidates@;
            self.pending_ice_candidates.push(
                QueuedCandidate { peer_id: peer_id.to_owned(), candidate: item },
            );
            assert(queue_view(self.pending_ice_candidates@) =~= queue_view(before).push(
                (peer_id@, item@),
            ));
            assert(action_views(actions@) =~= Seq::<ServerActionView>::empty());
        } else {
            actions.push(
                ServerAction::AddIceCandidate { peer_id: peer_id.to_owned(), candidate: item },
            );
            assert(action_views(actions@) =~= seq![actions@[0]@]);
        }
        actions
    }

    /// Takes a peer's answer whose SDP has been checked: `failure` holds the words of the
    /// refusal, or nothing if the SDP is in order. The answer of a peer without connection is
    /// passed over.
    pub fn handle_checked_answer(&self, peer_id: &str, sdp: &str, failure: Option<String>) -> (res:
        Result<Vec<ServerAction>, SfuError>)
        ensures
            match res {
                Ok(actions) => {
                    &&& self@.connections.has(peer_id@) ==> failure is None
                    &&& action_views(actions@) == (if self@.connections.has(peer_id@) {
                        seq![ServerActionView::SetRemoteAnswer { peer_id: peer_id@, sdp: sdp@ }]
                    } else {
                        Seq::empty()
                    })
                },
                Err(SfuError::InvalidSdp(e)) => {
                    &&& self@.connections.has(peer_id@)
                    &&& failure matches Some(words)
                    &&& e@ == "Failed to parse answer SDP: "@ + words@
                },
                Err(_) => false,
            },
    {
        let mut actions: Vec<ServerAction> = Vec::new();
        if !self.connections.contains_key(peer_id) {
            assert(action_views(actions@) =~= Seq::<ServerActionView>::empty());
            return Ok(actions);
        }
        match failure {
            Some(words) => {
                let mut text = String::from_str("Failed to parse answer SDP: ");
                text.append(words.as_str());
                Err(SfuError::InvalidSdp(text))
            },
            None => {
                actions.push(
                    ServerAction::SetRemoteAnswer {
                        peer_id: peer_id.to_owned(),
                        sdp: sdp.to_owned(),
                    },
                );
                assert(action_views(actions@) =~= seq![actions@[0]@]);
                Ok(actions)
            },
        }
    }

    /// Takes a peer's answer: it is to be applied as the remote description, unless its SDP
    /// does not parse.
    pub fn handle_answer(&self, peer_id: &str, sdp: &str) -> (res: Result<
        Vec<ServerAction>,
        SfuError,
    >)
        ensures
            match res {
                Ok(actions) => {
                    &&& self@.connections.has(peer_id@) ==> answer_sdp_failure(sdp@) is None
                    &&& action_views(actions@) == (if self@.connections.has(peer_id@) {
                        seq![ServerActionView::SetRemoteAnswer { peer_id: peer_id@, sdp: sdp@ }]
                    } else {
                        Seq::empty()
                    })
                },
                Err(SfuError::InvalidSdp(e)) => {
                    &&& self@.connections.has(peer_id@)
                    &&& answer_sdp_failure(sdp@) matches Some(words)
                    &&& e@ == "Failed to parse answer SDP: "@ + words
                },
                Err(_) => false,
            },
    {
        let failure = check_answer_sdp(sdp);
        self.handle_checked_answer(peer_id, sdp, failure)
    }

    /// After a peer's answer has been applied: the candidates that waited for it go to the
    /// connection in the order in which they arrived, and later ones go there at once.
    /// Nothing happens for a peer without connection.
    pub fn flush_pending_ice_candidates(&mut self, peer_id: &str) -> (actions: Vec<ServerAction>)
        requires
            old(self)@.wf(),
        ensures
            final(self)@.wf(),
            !old(self)@.connections.has(peer_id@) ==> final(self)@ == old(self)@
                && actions@.len() == 0,
            old(self)@.connections.has(peer_id@) ==> {
                &&& final(self)@ == (ServerView {
                    connections: old(self)@.connections.put(
                        peer_id@,
                        Connection { remote_description_set: true },
                    ),
                    pending_ice: old(self)@.pending_ice.filter(queued_for_others(peer_id@)),
                    ..old(self)@
                })
                &&& action_views(actions@) == old(self)@.pending_ice.filter(
                    queued_for(peer_id@),
                ).map_values(replay())
            },
    {
        let mut actions: Vec<ServerAction> = Vec::new();
        if !self.connections.contains_key(peer_id) {
            return actions;
        }
        self.connections.insert(peer_id.to_owned(), Connection { remote_description_set: true });
        let ghost queue = queue_view(self.pending_ice_candidates@);
        let mut kept: Vec<QueuedCandidate> = Vec::new();
        let mut i: usize = 0;
        proof {
            lemma_filter_start(queue, queued_for(peer_id@));
            lemma_filter_start(queue, queued_for_others(peer_id@));
            assert(queue_view(kept@) =~= Seq::<(Seq<char>, IceCandidateView)>::empty());
            assert(action_views(actions@) =~= queue.take(0).filter(
                queued_for(peer_id@),
            ).map_values(replay()));
        }
        while i < self.pending_ice_candidates.len()
            invariant
                i <= self.pending_ice_candidates.len(),
                queue == queue_view(self.pending_ice_candidates@),
                queue_view(kept@) == queue.take(i as int).filter(queued_for_others(peer_id@)),
                action_views(actions@) == queue.take(i as int).filter(
                    queued_for(peer_id@),
                ).map_values(replay()),
            decreases self.pending_ice_candidates.len() - i,
        {
            proof {
                lemma_filter_step(queue, queued_for(peer_id@), i as int);
                lemma_filter_step(queue, queued_for_others(peer_id@), i as int);
            }
            let entry = &self.pending_ice_candidates[i];
            let item = IceCandidate {
                candidate: entry.candidate.candidate.clone(),
                sdp_mid: clone_opt_string(&entry.candidate.sdp_mid),
                sdp_mline_index: entry.candidate.sdp_mline_index,
            };
            let ghost kept_before = kept@;
            let ghost actions_before = actions@;
            if str_eq(entry.peer_id.as_str(), peer_id) {
                actions.push(
                    ServerAction::AddIceCandidate { peer_id: entry.peer_id.clone(), candidate: item },
                );
                assert(action_views(actions@) =~= action_views(actions_before).push(
                    replay()(queue[i as int]),
                ));
                assert(queue.take(i as int).filter(queued_for(peer_id@)).push(
                    queue[i as int],
                ).map_values(replay()) =~= queue.take(i as int).filter(
                    queued_for(peer_id@),
                ).map_values(replay()).push(replay()(queue[i as int])));
            } else {
                kept.push(QueuedCandidate { peer_id: entry.peer_id.clone(), candidate: item });
                assert(queue_view(kept@) =~= queue_view(kept_before).push(queue[i as int]));
            }
            i += 1;
        }
        assert(queue.take(i as int) =~= queue);
        self.pending_ice_candidates = kept;
        actions
    }

    /// Begins the try number `retry_count` at a renegotiation with a peer. The first try takes
    /// the peer's flag away, so that the next added track schedules anew. `signaling_stable`
    /// says whether the peer's connection is in the stable state.
    pub fn perform_renegotiation(&mut self, target_peer_id: &str, retry_count: u32, signaling_stable: bool) -> (step:
        RenegotiationStep)
        requires
            old(self)@.wf(),
        ensures
            final(self)@.wf(),
            final(self)@ == (ServerView {
                pending_renegotiations: if retry_count == 0 {
                    old(self)@.pending_renegotiations.delete(target_peer_id@)
                } else {
                    old(self)@.pending_renegotiations
                },
                ..old(self)@
            }),
            step == spec_renegotiation_step(
                old(self)@.connections.has(target_peer_id@),
                signaling_stable,
                retry_count,
            ),
    {
        if retry_count == 0 {
            let _ = self.pending_renegotiations.remove(target_peer_id);
        }
        if !self.connections.contains_key(target_peer_id) {
            RenegotiationStep::NoConnection
        } else if signaling_stable {
            RenegotiationStep::SendOffer
        } else if retry_count < MAX_RENEGOTIATION_RETRIES {
            let delay: u64 = if retry_count == 0 {
                BASE_RETRY_DELAY_MS
            } else if retry_count == 1 {
                2 * BASE_RETRY_DELAY_MS
            } else {
                4 * BASE_RETRY_DELAY_MS
            };
            RenegotiationStep::Deferred { retry_delay_ms: delay }
        } else {
            RenegotiationStep::GivenUp
        }
    }

    /// The ids of the tracks that a peer of the room `room_id` gets when it joins: those
    /// whose source is in that room and forwards to the peer.
    pub fn get_tracks_for_peer(&self, peer_id: &str, room_id: &str) -> (ids: Vec<String>)
        requires
            self@.wf(),
        ensures
            text_views(ids@) == self@.tracks_for_peer(peer_id@, room_id@),
    {
        let mut out: Vec<String> = Vec::new();
        let ghost tracks = self@.tracks.tracks;
        let ghost pred = admitted_track(self@.rooms, peer_id@, room_id@);
        let n = self.track_manager.track_count();
        let mut i: usize = 0;
        proof {
            lemma_filter_start(tracks, pred);
            assert(text_views(out@) =~= tracks.take(0).filter(pred).map_values(track_id_of()));
        }
        while i < n
            invariant
                i <= n,
                n == tracks.len(),
                self@.wf(),
                tracks == self@.tracks.tracks,
                pred == admitted_track(self@.rooms, peer_id@, room_id@),
                text_views(out@) == tracks.take(i as int).filter(pred).map_values(track_id_of()),
            decreases n - i,
        {
            proof {
                lemma_filter_step(tracks, pred, i as int);
            }
            let track = self.track_manager.track_at(i);
            let source = track.source_peer_id.as_str();
            let admitted = match self.room_manager.get_peer(source) {
                None => false,
                Some(peer) => str_eq(peer.room_id.as_str(), room_id)
                    && self.room_manager.should_forward_track(source, peer_id),
            };
            let ghost before = out@;
            if admitted {
                out.push(track.id.clone());
                assert(text_views(out@) =~= text_views(before).push(tracks[i as int].id));
                assert(tracks.take(i as int).filter(pred).push(tracks[i as int]).map_values(
                    track_id_of(),
                ) =~= tracks.take(i as int).filter(pred).map_values(track_id_of()).push(
                    tracks[i as int].id,
                ));
            }
            i += 1;
        }
        assert(tracks.take(i as int) =~= tracks);
        out
    }

    /// Gives a peer its connection, with the sinks of the tracks that the peer gets, and the
    /// first offer. A peer that has a connection already is refused, and nothing changes.
    pub fn add_peer(&mut self, peer_id: String, room_id: String) -> (res: Result<
        Vec<ServerAction>,
        SfuError,
    >)
        requires
            old(self)@.wf(),
        ensures
            final(self)@.wf(),
            match res {
                Ok(actions) => {
                    &&& !old(self)@.connections.has(peer_id@)
                    &&& final(self)@ == old(self)@.with_connection(peer_id@, room_id@)
                    &&& action_views(actions@) == old(self)@.connection_actions(
                        peer_id@,
                        room_id@,
                    )
                },
                Err(SfuError::PeerAlreadyExists(e)) => {
                    &&& old(self)@.connections.has(peer_id@)
                    &&& e@ == peer_id@
                    &&& final(self)@ == old(self)@
                },
                Err(_) => false,
            },
    {
        if self.connections.contains_key(peer_id.as_str()) {
            return Err(SfuError::PeerAlreadyExists(peer_id));
        }
        let mut actions: Vec<ServerAction> = Vec::new();
        actions.push(ServerAction::CreateConnection { peer_id: peer_id.clone() });
        let existing = self.get_tracks_for_peer(peer_id.as_str(), room_id.as_str());
        let mut seeded = add_existing_tracks(&mut self.track_manager, peer_id.as_str(), &existing);
        let ghost middle = action_views(seeded@);
        actions.append(&mut seeded);
        actions.push(ServerAction::SendOffer { peer_id: peer_id.clone() });
        assert(action_views(actions@) =~= seq![
            ServerActionView::CreateConnection { peer_id: peer_id@ },
        ] + middle + seq![ServerActionView::SendOffer { peer_id: peer_id@ }]);
        self.connections.insert(peer_id, Connection { remote_description_set: false });
        Ok(actions)
    }

    /// Lets a peer in under its role. A student enters the registry first, is recorded, and is
    /// made known to the ledger if the wallet is known; then the peer gets its connection. A
    /// peer that has a connection already is refused before anything changes.
    pub fn add_peer_with_role(
        &mut self,
        peer_id: String,
        room_id: String,
        role: String,
        name: Option<String>,
        wallet: Option<Address>,
    ) -> (res: Result<Vec<ServerAction>, SfuError>)
        requires
            old(self)@.wf(),
        ensures
            final(self)@.wf(),
            match res {
                Ok(actions) => {
                    &&& !old(self)@.connections.has(peer_id@)
                    &&& role@ == "student"@ ==> {
                        &&& old(self)@.rooms.join_allowed(room_id@, peer_id@)
                        &&& final(self)@ == old(self)@.with_student(
                            peer_id@,
                            room_id@,
                            opt_view(name),
                            wallet,
                        ).with_connection(peer_id@, room_id@)
                        &&& action_views(actions@) == ServerView::student_actions(
                            peer_id@,
                            room_id@,
                            opt_view(name),
                            wallet,
                        ) + old(self)@.with_student(
                            peer_id@,
                            room_id@,
                            opt_view(name),
                            wallet,
                        ).connection_actions(peer_id@, room_id@)
                    }
                    &&& role@ != "student"@ ==> {
                        &&& final(self)@ == old(self)@.with_connection(peer_id@, room_id@)
                        &&& action_views(actions@) == old(self)@.connection_actions(
                            peer_id@,
                            room_id@,
                        )
                    }
                },
                Err(SfuError::PeerAlreadyExists(e)) => {
                    &&& e@ == peer_id@
                    &&& final(self)@ == old(self)@
                    &&& old(self)@.connections.has(peer_id@) || (role@ == "student"@
                        && old(self)@.rooms.has_room(room_id@) && !old(self)@.rooms.join_allowed(
                        room_id@,
                        peer_id@,
                    ))
                },
                Err(SfuError::RoomNotFound(e)) => {
                    &&& e@ == room_id@
                    &&& final(self)@ == old(self)@
                    &&& !old(self)@.connections.has(peer_id@)
                    &&& role@ == "student"@
                    &&& !old(self)@.rooms.has_room(room_id@)
                },
                Err(_) => false,
            },
    {
        if self.connections.contains_key(peer_id.as_str()) {
            return Err(SfuError::PeerAlreadyExists(peer_id));
        }
        let mut actions: Vec<ServerAction> = Vec::new();
        if str_eq(role.as_str(), "student") {
            match self.room_manager.join_room(
                room_id.clone(),
                peer_id.clone(),
                clone_opt_string(&name),
            ) {
                Err(e) => {
                    return Err(e);
                },
                Ok(_) => {},
            }
            actions.push(
                ServerAction::StartRecording {
                    room_id: room_id.clone(),
                    peer_id: peer_id.clone(),
                },
            );
            match wallet {
                Some(w) => {
                    actions.push(
                        ServerAction::Emit {
                            event: ChainEvent::ParticipantJoined {
                                room_id: room_id.clone(),
                                participant: w,
                                name,
                                role: Role::Student,
                            },
                        },
                    );
                    self.wallets.insert(peer_id.clone(), w);
                },
                None => {},
            }
            assert(action_views(actions@) =~= ServerView::student_actions(
                peer_id@,
                room_id@,
                opt_view(name),
                wallet,
            ));
        } else {
            assert(action_views(actions@) =~= Seq::<ServerActionView>::empty());
        }
        let ghost first = action_views(actions@);
        match self.add_peer(peer_id, room_id) {
            Err(e) => Err(e),
            Ok(mut rest) => {
                let ghost second = action_views(rest@);
                actions.append(&mut rest);
                assert(action_views(actions@) =~= first + second);
                Ok(actions)
            },
        }
    }

    /// Takes note of a new track of a peer: the peer's count of tracks goes up, and the track
    /// is handed to every connected peer that the policy admits, in the order of the
    /// connections. Each of them gets a sink; a new sink for video asks the publisher for a
    /// key frame; and a renegotiation is scheduled for each peer that had none scheduled.
    pub fn handle_track_received(&mut self, peer_id: &str, track_id: &str) -> (actions: Vec<
        ServerAction,
    >)
        requires
            old(self)@.wf(),
        ensures
            final(self)@.wf(),
            final(self)@ == (ServerView {
                peers_with_tracks: old(self)@.peers_with_tracks.put(
                    peer_id@,
                    old(self)@.next_track_count(peer_id@),
                ),
                tracks: old(self)@.forwarded(peer_id@, track_id@).tracks,
                pending_renegotiations: old(self)@.forwarded(peer_id@, track_id@).pending,
                ..old(self)@
            }),
            action_views(actions@) == old(self)@.forwarded(peer_id@, track_id@).actions,
    {
        let count: usize = match self.peers_with_tracks.get(peer_id) {
            None => 1,
            Some(n) => if *n < usize::MAX {
                *n + 1
            } else {
                usize::MAX
            },
        };
        self.peers_with_tracks.insert(peer_id.to_owned(), count);
        forward_new_track(
            &self.room_manager,
            &mut self.track_manager,
            &mut self.pending_renegotiations,
            &self.connections,
            peer_id,
            track_id,
        )
    }

    /// Drops what the server keeps of one peer beside the registry.
    pub fn purge(&mut self, peer_id: &str)
        requires
            old(self)@.wf(),
        ensures
            final(self)@.wf(),
            final(self)@ == old(self)@.purge(peer_id@),
    {
        let _ = self.connections.remove(peer_id);
        self.track_manager.remove_peer_tracks(peer_id);
        self.track_manager.remove_peer_sinks(peer_id);
        let _ = self.pending_renegotiations.remove(peer_id);
        let _ = self.wallets.remove(peer_id);
        let _ = self.grades.remove(peer_id);
        let ghost queue = queue_view(self.pending_ice_candidates@);
        let mut kept: Vec<QueuedCandidate> = Vec::new();
        let mut i: usize = 0;
        proof {
            lemma_filter_start(queue, queued_for_others(peer_id@));
            assert(queue_view(kept@) =~= Seq::<(Seq<char>, IceCandidateView)>::empty());
        }
        while i < self.pending_ice_candidates.len()
            invariant
                i <= self.pending_ice_candidates.len(),
                queue == queue_view(self.pending_ice_candidates@),
                queue_view(kept@) == queue.take(i as int).filter(queued_for_others(peer_id@)),
            decreases self.pending_ice_candidates.len() - i,
        {
            proof {
                lemma_filter_step(queue, queued_for_others(peer_id@), i as int);
            }
            let entry = &self.pending_ice_candidates[i];
            let ghost kept_before = kept@;
            if !str_eq(entry.peer_id.as_str(), peer_id) {
                kept.push(
                    QueuedCandidate {
                        peer_id: entry.peer_id.clone(),
                        candidate: IceCandidate {
                            candidate: entry.candidate.candidate.clone(),
                            sdp_mid: clone_opt_string(&entry.candidate.sdp_mid),
                            sdp_mline_index: entry.candidate.sdp_mline_index,
                        },
                    },
                );
                assert(queue_view(kept@) =~= queue_view(kept_before).push(queue[i as int]));
            }
            i += 1;
        }
        assert(queue.take(i as int) =~= queue);
        self.pending_ice_candidates = kept;
    }

    fn note_departure(&self, peer_id: &str) -> (departure: Option<Departure>)
        requires
            self@.wf(),
        ensures
            match departure {
                Some(d) => self@.departure(peer_id@) == Some(d@),
                None => self@.departure(peer_id@) is None,
            },
    {
        let peer = match self.room_manager.get_peer(peer_id) {
            None => {
                return None;
            },
            Some(peer) => peer,
        };
        let wallet = match self.wallets.get(peer_id) {
            Some(w) => Some(*w),
            None => None,
        };
        let grade = match self.grades.get(peer_id) {
            Some(g) => Some(
                ExamGrade {
                    grade_basis_points: g.grade_basis_points,
                    exam_name: clone_opt_string(&g.exam_name),
                },
            ),
            None => None,
        };
        let mut proctor_to_tell: Option<String> = None;
        let mut evicted: Vec<EvictedStudent> = Vec::new();
        let ghost students = self@.leaving_students(peer_id@);
        if peer.role == PeerRole::Student {
            match self.room_manager.get_room_proctor(peer.room_id.as_str()) {
                Some(proctor_id) => {
                    if self.connections.contains_key(proctor_id.as_str()) {
                        proctor_to_tell = Some(proctor_id);
                    }
                },
                None => {},
            }
            assert(evicted_views(evicted@) =~= students.map_values(self@.evicted_of()));
        } else {
            match self.room_manager.get_room(peer.room_id.as_str()) {
                Some(room) => {
                    let mut k: usize = 0;
                    while k < room.students.len()
                        invariant
                            k <= room.students.len(),
                            self@.wf(),
                            evicted.len() == k,
                            forall|j: int|
                                0 <= j < k ==> (#[trigger] evicted[j])@ == self@.evicted_of()(
                                    room.students[j]@,
                                ),
                        decreases room.students.len() - k,
                    {
                        let student_id = &room.students[k];
                        let student_wallet = match self.wallets.get(student_id.as_str()) {
                            Some(w) => Some(*w),
                            None => None,
                        };
                        evicted.push(
                            EvictedStudent {
                                peer_id: student_id.clone(),
                                wallet: student_wallet,
                                connected: self.connections.contains_key(student_id.as_str()),
                            },
                        );
                        k += 1;
                    }
                    assert(evicted_views(evicted@) =~= students.map_values(self@.evicted_of()));
                },
                None => {
                    proof {
                        crate::sfu::room::lemma_peer_room_exists(self@.rooms, peer_id@);
                    }
                },
            }
        }
        Some(
            Departure {
                peer_id: peer.id,
                room_id: peer.room_id,
                role: peer.role,
                name: peer.name,
                wallet,
                grade,
                proctor_to_tell,
                evicted,
            },
        )
    }

    /// Takes a peer out: out of the registry, with the room and its students if the peer was
    /// the proctor, and out of everything else that the server keeps. What is to be done at
    /// once comes back, and with it what is known of the peer, for `departure_actions` once
    /// the recordings have ended. Of a peer that was in no room nothing is known.
    pub fn remove_peer(&mut self, peer_id: &str) -> (res: (Vec<ServerAction>, Option<Departure>))
        requires
            old(self)@.wf(),
        ensures
            final(self)@.wf(),
            final(self)@ == old(self)@.after_leave(peer_id@),
            action_views(res.0@) == old(self)@.leave_actions(peer_id@),
            match res.1 {
                Some(d) => old(self)@.departure(peer_id@) == Some(d@),
                None => old(self)@.departure(peer_id@) is None,
            },
    {
        let departure = self.note_departure(peer_id);
        let ghost students = self@.leaving_students(peer_id@);
        proof {
            match &departure {
                Some(d) => {
                    let ev = evicted_views(d.evicted@);
                    assert(ev == students.map_values(self@.evicted_of()));
                    assert forall|j: int| 0 <= j < students.len() implies (
                    #[trigger] d.evicted[j]).peer_id@ == students[j] by {
                        assert(ev[j] == d.evicted[j]@);
                        assert(ev[j] == self@.evicted_of()(students[j]));
                    }
                },
                None => {},
            }
        }
        let mut actions: Vec<ServerAction> = Vec::new();
        if self.connections.contains_key(peer_id) {
            actions.push(ServerAction::CloseConnection { peer_id: peer_id.to_owned() });
        }
        let ghost closing = action_views(actions@);
        match &departure {
            Some(d) => {
                if d.role == PeerRole::Proctor {
                    actions.push(ServerAction::StopRoomRecordings { room_id: d.room_id.clone() });
                } else {
                    actions.push(
                        ServerAction::StopRecording {
                            room_id: d.room_id.clone(),
                            peer_id: peer_id.to_owned(),
                        },
                    );
                }
            },
            None => {},
        }
        assert(action_views(actions@) =~= old(self)@.leave_actions(peer_id@));
        let _ = self.room_manager.remove_peer(peer_id);
        self.purge(peer_id);
        let ghost base = self@;
        match &departure {
            Some(d) => {
                let mut i: usize = 0;
                assert(students.take(0) =~= Seq::<Seq<char>>::empty());
                while i < d.evicted.len()
                    invariant
                        i <= d.evicted.len(),
                        d.evicted.len() == students.len(),
                        forall|j: int|
                            0 <= j < students.len() ==> (#[trigger] d.evicted[j]).peer_id@
                                == students[j],
                        self@.wf(),
                        self@ == base.purge_all(students.take(i as int)),
                    decreases d.evicted.len() - i,
                {
                    proof {
                        assert(students.take(i + 1).drop_last() =~= students.take(i as int));
                        assert(students.take(i + 1).last() == students[i as int]);
                    }
                    self.purge(d.evicted[i].peer_id.as_str());
                    i += 1;
                }
                assert(students.take(i as int) =~= students);
            },
            None => {},
        }
        (actions, departure)
    }

    /// Begins the recording of a peer of a room at the time `unix_ms`, and says to which file
    /// it is written. A peer that is recorded already is not recorded twice.
    pub fn start_recording(&mut self, room_id: &str, peer_id: &str, unix_ms: u64) -> (res: Result<
        String,
        SfuError,
    >)
        requires
            old(self)@.wf(),
        ensures
            final(self)@.wf(),
            match res {
                Ok(path) => {
                    &&& !old(self)@.recordings.has(room_id@, peer_id@)
                    &&& path@ == spec_output_path(
                        old(self)@.recordings.output_dir,
                        room_id@,
                        peer_id@,
                        unix_ms,
                    )
                    &&& final(self)@ == (ServerView {
                        recordings: RecordingManagerView {
                            recordings: old(self)@.recordings.recordings.push(
                                RecordingView {
                                    room_id: room_id@,
                                    peer_id: peer_id@,
                                    output_path: path@,
                                    state: RecordingState::Recording,
                                },
                            ),
                            ..old(self)@.recordings
                        },
                        ..old(self)@
                    })
                },
                Err(SfuError::RecordingAlreadyActive(e)) => {
                    &&& old(self)@.recordings.has(room_id@, peer_id@)
                    &&& e@ == recording_name(room_id@, peer_id@)
                    &&& final(self)@ == old(self)@
                },
                Err(_) => false,
            },
    {
        self.recording_manager.start_recording(room_id, peer_id, unix_ms)
    }

    /// Begins the end of the recording of a peer of a room and takes it off the table.
    pub fn stop_recording(&mut self, room_id: &str, peer_id: &str) -> (res: Result<
        RecordingPipeline,
        SfuError,
    >)
        requires
            old(self)@.wf(),
        ensures
            final(self)@.wf(),
            match res {
                Ok(pipeline) => {
                    &&& old(self)@.recordings.has(room_id@, peer_id@)
                    &&& pipeline.output_path@ == old(self)@.recordings.recording(
                        room_id@,
                        peer_id@,
                    ).output_path
                    &&& pipeline.state is Stopping
                    &&& final(self)@ == (ServerView {
                        recordings: old(self)@.recordings.without(room_id@, peer_id@),
                        ..old(self)@
                    })
                },
                Err(SfuError::RecordingNotFound(e)) => {
                    &&& !old(self)@.recordings.has(room_id@, peer_id@)
                    &&& e@ == recording_name(room_id@, peer_id@)
                    &&& final(self)@ == old(self)@
                },
                Err(_) => false,
            },
    {
        self.recording_manager.stop_recording(room_id, peer_id)
    }

    /// Begins the end of every recording of a room and takes them off the table. The
    /// recordings come back with their peers, in the order in which they began.
    pub fn stop_all_recordings(&mut self, room_id: &str) -> (stopped: Vec<
        (String, RecordingPipeline),
    >)
        requires
            old(self)@.wf(),
        ensures
            final(self)@.wf(),
            final(self)@ == (ServerView {
                recordings: old(self)@.recordings.without_room(room_id@),
                ..old(self)@
            }),
            stopped@.len() == old(self)@.recordings.of_room(room_id@).len(),
            forall|k: int|
                0 <= k < stopped@.len() ==> {
                    &&& (#[trigger] stopped@[k]).0@ == old(self)@.recordings.of_room(
                        room_id@,
                    )[k].peer_id
                    &&& stopped@[k].1.output_path@ == old(self)@.recordings.of_room(
                        room_id@,
                    )[k].output_path
                    &&& stopped@[k].1.state is Stopping
                },
    {
        self.recording_manager.stop_all_recordings_in_room(room_id)
    }

    /// Whether a peer of a room is recorded.
    pub fn is_peer_recording(&self, room_id: &str, peer_id: &str) -> (b: bool)
        ensures
            b == self@.recordings.has(room_id@, peer_id@),
    {
        self.recording_manager.is_recording(room_id, peer_id)
    }

    /// The peers of a room that are recorded.
    pub fn get_recording_peers(&self, room_id: &str) -> (peers: Vec<String>)
        ensures
            text_views(peers@) == self@.recordings.of_room(room_id@).map_values(
                crate::recording::recorder::recorded_peer(),
            ),
    {
        self.recording_manager.get_recording_peers(room_id)
    }

    /// The table of the recordings.
    pub fn get_recording_manager(&self) -> (manager: &RecordingManager)
        ensures
            manager@ == self@.recordings,
    {
        &self.recording_manager
    }
}

} // verus!
