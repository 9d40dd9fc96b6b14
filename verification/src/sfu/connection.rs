use crate::sfu::server::{
    action_views, add_existing_tracks, seed_fold, ServerAction, ServerActionView,
};
use crate::sfu::signaling::{SfuMessage, SfuMessageView};
use crate::sfu::track_manager::TrackManager;
use crate::sfu::track_manager::{sink_key, ForwardedTrack, TrackKind, TrackView};
use crate::text::{clone_opt_string, opt_view, text_views};
use vstd::prelude::*;
use vstd::string::*;

verus! {

/// The least time between two periodic picture loss indications of a track, in milliseconds.
pub const PLI_INTERVAL_MS: u64 = 3000;

/// How many failed writes a forwarding loop reports before it keeps silent about them.
pub const LOGGED_WRITE_ERRORS: u64 = 5;

/// The size of the buffer into which a forwarding loop reads its packets.
pub const RTP_BUFFER_SIZE: usize = 1500;

/// The id under which the server forwards a track: the id of the peer that publishes it, the
/// kind's name and the id that the track has at the peer, with `_` between them.
pub open spec fn spec_track_id(peer_id: Seq<char>, kind: TrackKind, remote_track_id: Seq<char>) -> Seq<
    char,
> {
    peer_id + "_"@ + kind.spec_name() + "_"@ + remote_track_id
}

/// The id under which the server forwards a track.
pub fn track_id(peer_id: &str, kind: TrackKind, remote_track_id: &str) -> (id: String)
    ensures
        id@ == spec_track_id(peer_id@, kind, remote_track_id@),
{
    let mut id = String::from_str(peer_id);
    id.append("_");
    id.append(kind.name());
    id.append("_");
    id.append(remote_track_id);
    id
}

/// The same peer, kind and track give the same id, and the id begins with the peer's id.
pub proof fn lemma_track_id_is_stable(
    peer_id: Seq<char>,
    kind: TrackKind,
    remote_track_id: Seq<char>,
    peer_again: Seq<char>,
    kind_again: TrackKind,
    remote_again: Seq<char>,
)
    requires
        peer_id == peer_again,
        kind == kind_again,
        remote_track_id == remote_again,
    ensures
        spec_track_id(peer_id, kind, remote_track_id) == spec_track_id(
            peer_again,
            kind_again,
            remote_again,
        ),
        spec_track_id(peer_id, kind, remote_track_id).subrange(0, peer_id.len() as int)
            == peer_id,
{
    assert(spec_track_id(peer_id, kind, remote_track_id).subrange(0, peer_id.len() as int)
        =~= peer_id);
}

/// The name under which the server signs its own candidates and offers.
pub open spec fn server_name() -> Seq<char> {
    "sfu"@
}

/// The envelope that carries a candidate of the server to a peer.
pub fn ice_candidate_message(
    candidate: String,
    sdp_mid: Option<String>,
    sdp_mline_index: Option<u16>,
) -> (message: SfuMessage)
    ensures
        message@ == (SfuMessageView::IceCandidate {
            peer_id: server_name(),
            candidate: candidate@,
            sdp_mid: opt_view(sdp_mid),
            sdp_mline_index,
        }),
{
    SfuMessage::IceCandidate {
        peer_id: String::from_str("sfu"),
        candidate,
        sdp_mid,
        sdp_mline_index,
    }
}

/// The envelope that carries the server's first offer to a peer.
pub fn offer_message(sdp: String) -> (message: SfuMessage)
    ensures
        message@ == (SfuMessageView::Offer { sdp: sdp@, peer_id: server_name() }),
{
    SfuMessage::Offer { sdp, peer_id: String::from_str("sfu") }
}

/// The envelope that carries a later offer of the server to a peer.
pub fn renegotiate_message(sdp: String) -> (message: SfuMessage)
    ensures
        message@ == (SfuMessageView::Renegotiate { sdp: sdp@ }),
{
    SfuMessage::Renegotiate { sdp }
}

/// What a forwarding loop remembers between two packets of its track.
#[derive(Debug, Clone, Copy, PartialEq, Eq)]
pub struct RtpLoop {
    pub kind: TrackKind,
    /// How many packets have been read.
    pub packet_count: u64,
    /// When the last picture loss indication was sent, if any was.
    pub last_pli_ms: Option<u64>,
}

/// What is to be done with one packet.
#[derive(Debug, Clone, PartialEq, Eq)]
pub struct PacketPlan {
    /// The subscribers to whose sinks the packet is written.
    pub targets: Vec<String>,
    /// Whether a picture loss indication goes to the publisher.
    pub send_pli: bool,
    /// The kind under which the packet goes to the recording of the publisher.
    pub record_as: TrackKind,
    /// Whether a failed write of this packet is reported.
    pub log_write_errors: bool,
}

/// The subscriber of a sink.
pub open spec fn subscriber_of() -> spec_fn(crate::sfu::track_manager::SinkView) -> Seq<char> {
    |s: crate::sfu::track_manager::SinkView| s.subscriber_id
}

/// The subscribers of a track, if the track is there.
pub open spec fn subscribers(track: Option<TrackView>) -> Seq<Seq<char>> {
    match track {
        Some(t) => t.local_tracks.map_values(subscriber_of()),
        None => Seq::empty(),
    }
}

impl RtpLoop {
    /// Whether a picture loss indication goes out with the next packet, at the time `now`:
    /// for video only; with the first packet; and later, while the track has a subscriber,
    /// once the interval has passed since the last one.
    pub open spec fn pli_due(self, has_subscribers: bool, now: u64) -> bool {
        self.kind == TrackKind::Video && (self.packet_count == 0 || (has_subscribers && (
        match self.last_pli_ms {
            Some(last) => now >= last && now - last >= PLI_INTERVAL_MS,
            None => true,
        })))
    }

    /// The loop's memory after a packet at the time `now`.
    pub open spec fn after_packet(self, has_subscribers: bool, now: u64) -> RtpLoop {
        RtpLoop {
            kind: self.kind,
            packet_count: if self.packet_count < u64::MAX {
                (self.packet_count + 1) as u64
            } else {
                u64::MAX
            },
            last_pli_ms: if self.pli_due(has_subscribers, now) {
                Some(now)
            } else {
                self.last_pli_ms
            },
        }
    }

    /// The memory of a loop that has read nothing.
    pub fn new(kind: TrackKind) -> (state: RtpLoop)
        ensures
            state == (RtpLoop { kind, packet_count: 0, last_pli_ms: None }),
    {
        RtpLoop { kind, packet_count: 0, last_pli_ms: None }
    }

    /// Says what is to be done with the packet that was read at the time `now_ms`, `track`
    /// being the track's entry as it stands now. The packet goes to every sink of the entry
    /// and to the recording; the first five packets report failed writes.
    pub fn on_packet(&mut self, track: Option<&ForwardedTrack>, now_ms: u64) -> (plan: PacketPlan)
        requires
            track matches Some(t) ==> t@.wf(),
        ensures
            *final(self) == old(self).after_packet(
                subscribers(
                    match track {
                        Some(t) => Some(t@),
                        None => None,
                    },
                ).len() > 0,
                now_ms,
            ),
            text_views(plan.targets@) == subscribers(
                match track {
                    Some(t) => Some(t@),
                    None => None,
                },
            ),
            plan.send_pli == old(self).pli_due(plan.targets@.len() > 0, now_ms),
            plan.record_as == old(self).kind,
            plan.log_write_errors == (final(self).packet_count <= LOGGED_WRITE_ERRORS),
            forall|k: int|
                0 <= k < plan.targets@.len() ==> (track matches Some(t) && (
                #[trigger] plan.targets@[k])@ != t@.source_peer_id),
    {
        let mut targets: Vec<String> = Vec::new();
        match track {
            Some(t) => {
                let mut i: usize = 0;
                while i < t.local_tracks.len()
                    invariant
                        i <= t.local_tracks.len(),
                        t@.wf(),
                        targets.len() == i,
                        forall|k: int|
                            0 <= k < i ==> (#[trigger] targets[k])@
                                == t.local_tracks[k].subscriber_id@,
                    decreases t.local_tracks.len() - i,
                {
                    targets.push(t.local_tracks[i].subscriber_id.clone());
                    i += 1;
                }
                assert(text_views(targets@) =~= subscribers(Some(t@)));
                assert forall|k: int| 0 <= k < targets@.len() implies (#[trigger] targets@[k])@
                    != t@.source_peer_id by {
                    assert(t@.local_tracks.contains(t@.local_tracks[k]));
                }
            },
            None => {
                assert(text_views(targets@) =~= Seq::<Seq<char>>::empty());
            },
        }
        let has_subscribers = targets.len() > 0;
        let due = match self.kind {
            TrackKind::Audio => false,
            TrackKind::Video => self.packet_count == 0 || (has_subscribers && (
            match self.last_pli_ms {
                Some(last) => now_ms >= last && now_ms - last >= PLI_INTERVAL_MS,
                None => true,
            })),
        };
        if self.packet_count < u64::MAX {
            self.packet_count = self.packet_count + 1;
        }
        if due {
            self.last_pli_ms = Some(now_ms);
        }
        PacketPlan {
            targets,
            send_pli: due,
            record_as: self.kind,
            log_write_errors: self.packet_count <= LOGGED_WRITE_ERRORS,
        }
    }
}

/// After the first packet, two picture loss indications of a track are at least the interval
/// apart: one that goes out at the time `now` finds the last one that long ago.
pub proof fn lemma_pli_spacing(state: RtpLoop, has_subscribers: bool, now: u64)
    requires
        state.packet_count > 0,
        state.pli_due(has_subscribers, now),
    ensures
        state.last_pli_ms matches Some(last) ==> now - last >= PLI_INTERVAL_MS,
        state.after_packet(has_subscribers, now).last_pli_ms == Some(now),
        !state.after_packet(has_subscribers, now).pli_due(has_subscribers, now),
{
}

/// The connection of one peer, as far as the server's rules go.
#[derive(Debug, Clone, PartialEq, Eq)]
pub struct SfuConnection {
    pub peer_id: String,
}

impl SfuConnection {
    /// The connection of a peer.
    pub fn new(peer_id: String) -> (connection: SfuConnection)
        ensures
            connection.peer_id == peer_id,
    {
        SfuConnection { peer_id }
    }

    /// Gives the peer a sink of each of the tracks `existing_track_ids`, and says what is to
    /// be done with the sinks: each joins the connection, and a new sink for video asks the
    /// publisher for a key frame.
    pub fn add_existing_tracks(
        &self,
        track_manager: &mut TrackManager,
        existing_track_ids: Vec<String>,
    ) -> (actions: Vec<ServerAction>)
        requires
            old(track_manager)@.wf(),
        ensures
            final(track_manager)@.wf(),
            final(track_manager)@ == seed_fold(
                old(track_manager)@,
                text_views(existing_track_ids@),
                self.peer_id@,
            ).tracks,
            action_views(actions@) == seed_fold(
                old(track_manager)@,
                text_views(existing_track_ids@),
                self.peer_id@,
            ).actions,
    {
        add_existing_tracks(track_manager, self.peer_id.as_str(), &existing_track_ids)
    }

    /// The sending of an envelope to the peer.
    pub fn send_message(&self, message: SfuMessage) -> (action: ServerAction)
        ensures
            action@ == (ServerActionView::Notify { peer_id: self.peer_id@, message: message@ }),
    {
        ServerAction::Notify { peer_id: self.peer_id.clone(), message }
    }

    /// The closing of the connection.
    pub fn close(&self) -> (action: ServerAction)
        ensures
            action@ == (ServerActionView::CloseConnection { peer_id: self.peer_id@ }),
    {
        ServerAction::CloseConnection { peer_id: self.peer_id.clone() }
    }
}

} // verus!
