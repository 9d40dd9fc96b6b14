use crate::seq_lemmas::{
    keys_distinct, lemma_filter_keys_distinct, lemma_filter_members, lemma_filter_start,
    lemma_filter_step, lemma_push_members,
};
use crate::text::{str_eq, text_views};
use vstd::prelude::*;
use vstd::string::*;

verus! {

/// The two kinds of media.
#[derive(Debug, Clone, Copy, PartialEq, Eq, Structural)]
pub enum TrackKind {
    Video,
    Audio,
}

impl TrackKind {
    /// The kind's name as it stands in a track id.
    pub open spec fn spec_name(self) -> Seq<char> {
        match self {
            TrackKind::Video => "video"@,
            TrackKind::Audio => "audio"@,
        }
    }

    /// The kind's name as it stands in a track id: `video` or `audio`.
    pub fn name(self) -> (s: &'static str)
        ensures
            s@ == self.spec_name(),
    {
        match self {
            TrackKind::Video => "video",
            TrackKind::Audio => "audio",
        }
    }
}

/// One kind of RTCP feedback that a codec takes.
#[derive(Debug, Clone, PartialEq, Eq)]
pub struct RtcpFeedback {
    pub typ: String,
    pub parameter: String,
}

/// What a codec is: the plain values of a codec capability.
#[derive(Debug, Clone, PartialEq, Eq)]
pub struct CodecCapability {
    pub mime_type: String,
    pub clock_rate: u32,
    pub channels: u16,
    pub sdp_fmtp_line: String,
    pub rtcp_feedback: Vec<RtcpFeedback>,
}

/// A codec as the contracts see it.
pub struct CodecView {
    pub mime_type: Seq<char>,
    pub clock_rate: u32,
    pub channels: u16,
    pub sdp_fmtp_line: Seq<char>,
    pub rtcp_feedback: Seq<(Seq<char>, Seq<char>)>,
}

/// The feedback kinds of a list as the contracts see them: type and parameter.
pub open spec fn feedback_views(s: Seq<RtcpFeedback>) -> Seq<(Seq<char>, Seq<char>)> {
    s.map_values(|f: RtcpFeedback| (f.typ@, f.parameter@))
}

impl View for CodecCapability {
    type V = CodecView;

    open spec fn view(&self) -> CodecView {
        CodecView {
            mime_type: self.mime_type@,
            clock_rate: self.clock_rate,
            channels: self.channels,
            sdp_fmtp_line: self.sdp_fmtp_line@,
            rtcp_feedback: feedback_views(self.rtcp_feedback@),
        }
    }
}

/// A copy of a codec capability.
pub fn clone_codec(c: &CodecCapability) -> (r: CodecCapability)
    ensures
        r@ == c@,
{
    let mut feedback: Vec<RtcpFeedback> = Vec::new();
    let mut i: usize = 0;
    while i < c.rtcp_feedback.len()
        invariant
            i <= c.rtcp_feedback.len(),
            feedback.len() == i,
            forall|k: int|
                0 <= k < i ==> (#[trigger] feedback[k]).typ@ == c.rtcp_feedback[k].typ@
                    && feedback[k].parameter@ == c.rtcp_feedback[k].parameter@,
        decreases c.rtcp_feedback.len() - i,
    {
        feedback.push(
            RtcpFeedback {
                typ: c.rtcp_feedback[i].typ.clone(),
                parameter: c.rtcp_feedback[i].parameter.clone(),
            },
        );
        i += 1;
    }
    assert(feedback_views(feedback@) =~= feedback_views(c.rtcp_feedback@));
    CodecCapability {
        mime_type: c.mime_type.clone(),
        clock_rate: c.clock_rate,
        channels: c.channels,
        sdp_fmtp_line: c.sdp_fmtp_line.clone(),
        rtcp_feedback: feedback,
    }
}

/// What the server reads of an inbound stream: its kind, its SSRC and its codec.
#[derive(Debug, Clone, PartialEq, Eq)]
pub struct RemoteTrack {
    pub kind: TrackKind,
    pub ssrc: u32,
    pub codec: CodecCapability,
}

/// An inbound stream as the contracts see it.
pub struct RemoteTrackView {
    pub kind: TrackKind,
    pub ssrc: u32,
    pub codec: CodecView,
}

impl View for RemoteTrack {
    type V = RemoteTrackView;

    open spec fn view(&self) -> RemoteTrackView {
        RemoteTrackView { kind: self.kind, ssrc: self.ssrc, codec: self.codec@ }
    }
}

/// The forwarder of one track to one subscriber.
#[derive(Debug, Clone, PartialEq, Eq)]
pub struct LocalSink {
    pub subscriber_id: String,
    pub track_id: String,
    pub stream_id: String,
    pub codec: CodecCapability,
}

/// A sink as the contracts see it.
pub struct SinkView {
    pub subscriber_id: Seq<char>,
    pub track_id: Seq<char>,
    pub stream_id: Seq<char>,
    pub codec: CodecView,
}

impl View for LocalSink {
    type V = SinkView;

    open spec fn view(&self) -> SinkView {
        SinkView {
            subscriber_id: self.subscriber_id@,
            track_id: self.track_id@,
            stream_id: self.stream_id@,
            codec: self.codec@,
        }
    }
}

/// The sinks of a list as the contracts see them.
pub open spec fn sink_views(s: Seq<LocalSink>) -> Seq<SinkView> {
    s.map_values(|k: LocalSink| k@)
}

/// A track that the server forwards, with the sinks made for it so far.
#[derive(Debug, Clone, PartialEq, Eq)]
pub struct ForwardedTrack {
    pub id: String,
    pub kind: TrackKind,
    pub source_peer_id: String,
    pub remote_track: RemoteTrack,
    pub local_tracks: Vec<LocalSink>,
}

/// A forwarded track as the contracts see it.
pub struct TrackView {
    pub id: Seq<char>,
    pub kind: TrackKind,
    pub source_peer_id: Seq<char>,
    pub remote_track: RemoteTrackView,
    pub local_tracks: Seq<SinkView>,
}

impl View for ForwardedTrack {
    type V = TrackView;

    open spec fn view(&self) -> TrackView {
        TrackView {
            id: self.id@,
            kind: self.kind,
            source_peer_id: self.source_peer_id@,
            remote_track: self.remote_track@,
            local_tracks: sink_views(self.local_tracks@),
        }
    }
}

/// The tracks of a list as the contracts see them.
pub open spec fn track_views(s: Seq<ForwardedTrack>) -> Seq<TrackView> {
    s.map_values(|t: ForwardedTrack| t@)
}

/// The id of the stream that the tracks of one source peer belong to.
pub open spec fn stream_id_text(source_peer_id: Seq<char>) -> Seq<char> {
    source_peer_id + "_stream"@
}

/// The id of a track, by which tracks are told apart.
pub open spec fn track_id_key() -> spec_fn(TrackView) -> Seq<char> {
    |t: TrackView| t.id
}

/// The subscriber of a sink, by which the sinks of a track are told apart.
pub open spec fn sink_key() -> spec_fn(SinkView) -> Seq<char> {
    |s: SinkView| s.subscriber_id
}

/// Holds of the tracks whose id is not `id`.
pub open spec fn track_not(id: Seq<char>) -> spec_fn(TrackView) -> bool {
    |t: TrackView| t.id != id
}

/// Holds of the tracks that come from `peer_id`.
pub open spec fn track_from(peer_id: Seq<char>) -> spec_fn(TrackView) -> bool {
    |t: TrackView| t.source_peer_id == peer_id
}

/// Holds of the tracks that do not come from `peer_id`.
pub open spec fn track_not_from(peer_id: Seq<char>) -> spec_fn(TrackView) -> bool {
    |t: TrackView| t.source_peer_id != peer_id
}

/// Holds of the sinks of other subscribers than `peer_id`.
pub open spec fn sink_not_for(peer_id: Seq<char>) -> spec_fn(SinkView) -> bool {
    |s: SinkView| s.subscriber_id != peer_id
}

/// A track without the sink of the subscriber `peer_id`.
pub open spec fn drop_sinks_of(peer_id: Seq<char>) -> spec_fn(TrackView) -> TrackView {
    |t: TrackView| TrackView { local_tracks: t.local_tracks.filter(sink_not_for(peer_id)), ..t }
}

/// The id of a track.
pub open spec fn track_id_of() -> spec_fn(TrackView) -> Seq<char> {
    |t: TrackView| t.id
}

impl TrackView {
    /// The sink that this track has, or gets, for a subscriber.
    pub open spec fn sink_for(self, subscriber_id: Seq<char>) -> SinkView {
        SinkView {
            subscriber_id,
            track_id: self.id,
            stream_id: stream_id_text(self.source_peer_id),
            codec: self.remote_track.codec,
        }
    }

    /// Whether the track has a sink for a subscriber.
    pub open spec fn has_sink(self, subscriber_id: Seq<char>) -> bool {
        self.local_tracks.contains(self.sink_for(subscriber_id))
    }

    /// The track's kind is that of its stream; no subscriber has two sinks; no sink goes back
    /// to the source; and every sink carries the track's id, stream and codec.
    pub open spec fn wf(self) -> bool {
        &&& self.kind == self.remote_track.kind
        &&& keys_distinct(self.local_tracks, sink_key())
        &&& forall|s: SinkView| #[trigger]
            self.local_tracks.contains(s) ==> s.subscriber_id != self.source_peer_id && s
                == self.sink_for(s.subscriber_id)
    }

    /// This track with one sink more, for `subscriber_id`.
    pub open spec fn with_sink(self, subscriber_id: Seq<char>) -> TrackView {
        TrackView { local_tracks: self.local_tracks.push(self.sink_for(subscriber_id)), ..self }
    }
}

/// The track `track_id` gets a sink for `subscriber_id`; other tracks stay.
pub open spec fn add_sink(track_id: Seq<char>, subscriber_id: Seq<char>) -> spec_fn(
    TrackView,
) -> TrackView {
    |t: TrackView|
        if t.id == track_id {
            t.with_sink(subscriber_id)
        } else {
            t
        }
}

/// The tracks as the contracts see them, in the order in which they were added.
pub struct TrackManagerView {
    pub tracks: Seq<TrackView>,
}

impl TrackManagerView {
    /// Whether there is a track with this id.
    pub open spec fn has_track(self, id: Seq<char>) -> bool {
        exists|t: TrackView| #[trigger] self.tracks.contains(t) && t.id == id
    }

    /// The track with this id, where there is one.
    pub open spec fn track(self, id: Seq<char>) -> TrackView {
        choose|t: TrackView| #[trigger] self.tracks.contains(t) && t.id == id
    }

    /// No two tracks share an id, and every track is well formed.
    pub open spec fn wf(self) -> bool {
        &&& keys_distinct(self.tracks, track_id_key())
        &&& forall|t: TrackView| #[trigger] self.tracks.contains(t) ==> t.wf()
    }

    /// The tracks after `add_track`: an earlier track of the same id goes, and the new one, with
    /// no sink yet, stands last.
    pub open spec fn with_track(
        self,
        track_id: Seq<char>,
        source_peer_id: Seq<char>,
        remote_track: RemoteTrackView,
    ) -> TrackManagerView {
        TrackManagerView {
            tracks: self.tracks.filter(track_not(track_id)).push(
                TrackView {
                    id: track_id,
                    kind: remote_track.kind,
                    source_peer_id,
                    remote_track,
                    local_tracks: Seq::empty(),
                },
            ),
        }
    }

    /// Whether a request for a sink is answered: the track is known and the subscriber is not
    /// its source.
    pub open spec fn can_subscribe(self, track_id: Seq<char>, subscriber_id: Seq<char>) -> bool {
        self.has_track(track_id) && self.track(track_id).source_peer_id != subscriber_id
    }

    /// Whether an answered request makes a new sink.
    pub open spec fn makes_sink(self, track_id: Seq<char>, subscriber_id: Seq<char>) -> bool {
        self.can_subscribe(track_id, subscriber_id) && !self.track(track_id).has_sink(
            subscriber_id,
        )
    }

    /// The tracks after a request for a sink.
    pub open spec fn after_subscribe(
        self,
        track_id: Seq<char>,
        subscriber_id: Seq<char>,
    ) -> TrackManagerView {
        if self.makes_sink(track_id, subscriber_id) {
            TrackManagerView { tracks: self.tracks.map_values(add_sink(track_id, subscriber_id)) }
        } else {
            self
        }
    }

    /// The tracks without those that come from `peer_id`.
    pub open spec fn without_source(self, peer_id: Seq<char>) -> TrackManagerView {
        TrackManagerView { tracks: self.tracks.filter(track_not_from(peer_id)) }
    }

    /// The tracks without the sinks of the subscriber `peer_id`.
    pub open spec fn without_subscriber(self, peer_id: Seq<char>) -> TrackManagerView {
        TrackManagerView { tracks: self.tracks.map_values(drop_sinks_of(peer_id)) }
    }

    /// The ids of all tracks.
    pub open spec fn track_ids(self) -> Seq<Seq<char>> {
        self.tracks.map_values(track_id_of())
    }

    /// The ids of the tracks that come from `peer_id`.
    pub open spec fn track_ids_from(self, peer_id: Seq<char>) -> Seq<Seq<char>> {
        self.tracks.filter(track_from(peer_id)).map_values(track_id_of())
    }
}

/// With distinct ids, a track that is in the table is the track that its id names.
pub proof fn lemma_track_unique(v: TrackManagerView, t: TrackView)
    requires
        keys_distinct(v.tracks, track_id_key()),
        v.tracks.contains(t),
    ensures
        v.has_track(t.id),
        v.track(t.id) == t,
{
    let q = v.track(t.id);
    assert(v.tracks.contains(q) && q.id == t.id);
    let i = choose|i: int| 0 <= i < v.tracks.len() && v.tracks[i] == t;
    let j = choose|j: int| 0 <= j < v.tracks.len() && v.tracks[j] == q;
    if i < j {
        assert(track_id_key()(v.tracks[i]) != track_id_key()(v.tracks[j]));
    }
    if j < i {
        assert(track_id_key()(v.tracks[j]) != track_id_key()(v.tracks[i]));
    }
}

/// Adding a track keeps the table well formed, and the new track is then the one of its id.
pub proof fn lemma_with_track_wf(
    v: TrackManagerView,
    track_id: Seq<char>,
    source_peer_id: Seq<char>,
    remote_track: RemoteTrackView,
)
    requires
        v.wf(),
    ensures
        v.with_track(track_id, source_peer_id, remote_track).wf(),
        v.with_track(track_id, source_peer_id, remote_track).has_track(track_id),
        v.with_track(track_id, source_peer_id, remote_track).track(track_id).local_tracks.len()
            == 0,
{
    let w = v.with_track(track_id, source_peer_id, remote_track);
    let kept = v.tracks.filter(track_not(track_id));
    let nt = TrackView {
        id: track_id,
        kind: remote_track.kind,
        source_peer_id,
        remote_track,
        local_tracks: Seq::empty(),
    };
    lemma_filter_keys_distinct(v.tracks, track_not(track_id), track_id_key());
    lemma_filter_members(v.tracks, track_not(track_id));
    lemma_push_members(kept, nt);
    assert forall|i: int, j: int| 0 <= i < j < w.tracks.len() implies track_id_key()(
        #[trigger] w.tracks[i],
    ) != track_id_key()(#[trigger] w.tracks[j]) by {
        if j == kept.len() {
            assert(kept.contains(kept[i]));
        } else {
            assert(w.tracks[i] == kept[i] && w.tracks[j] == kept[j]);
        }
    }
    assert forall|t: TrackView| #[trigger] w.tracks.contains(t) implies t.wf() by {
        if t != nt {
            assert(v.tracks.contains(t));
        }
    }
    assert(w.tracks.contains(nt));
    lemma_track_unique(w, nt);
}

/// A request for a sink keeps the table well formed; after it the subscriber has its sink, and
/// a second request makes no other.
pub proof fn lemma_after_subscribe_wf(
    v: TrackManagerView,
    track_id: Seq<char>,
    subscriber_id: Seq<char>,
)
    requires
        v.wf(),
    ensures
        v.after_subscribe(track_id, subscriber_id).wf(),
        v.can_subscribe(track_id, subscriber_id) ==> v.after_subscribe(
            track_id,
            subscriber_id,
        ).can_subscribe(track_id, subscriber_id) && !v.after_subscribe(
            track_id,
            subscriber_id,
        ).makes_sink(track_id, subscriber_id),
{
    if v.makes_sink(track_id, subscriber_id) {
        let w = v.after_subscribe(track_id, subscriber_id);
        let f = add_sink(track_id, subscriber_id);
        let t0 = v.track(track_id);
        assert forall|i: int, j: int| 0 <= i < j < w.tracks.len() implies track_id_key()(
            #[trigger] w.tracks[i],
        ) != track_id_key()(#[trigger] w.tracks[j]) by {
            assert(w.tracks[i].id == v.tracks[i].id && w.tracks[j].id == v.tracks[j].id);
        }
        assert forall|t: TrackView| #[trigger] w.tracks.contains(t) implies t.wf() by {
            let k = choose|k: int| 0 <= k < w.tracks.len() && w.tracks[k] == t;
            let u = v.tracks[k];
            assert(v.tracks.contains(u));
            assert(t == f(u));
            if u.id == track_id {
                lemma_track_unique(v, u);
                let ns = u.sink_for(subscriber_id);
                lemma_push_members(u.local_tracks, ns);
                assert forall|i: int, j: int|
                    0 <= i < j < t.local_tracks.len() implies sink_key()(
                    #[trigger] t.local_tracks[i],
                ) != sink_key()(#[trigger] t.local_tracks[j]) by {
                    if j == u.local_tracks.len() {
                        let s = u.local_tracks[i];
                        assert(u.local_tracks.contains(s));
                        assert(s == u.sink_for(s.subscriber_id));
                    } else {
                        assert(t.local_tracks[i] == u.local_tracks[i] && t.local_tracks[j]
                            == u.local_tracks[j]);
                    }
                }
                assert forall|s: SinkView| #[trigger] t.local_tracks.contains(s) implies s.subscriber_id
                    != t.source_peer_id && s == t.sink_for(s.subscriber_id) by {
                    if s != ns {
                        assert(u.local_tracks.contains(s));
                    }
                }
            }
        }
        let k0 = choose|k: int| 0 <= k < v.tracks.len() && v.tracks[k] == t0;
        assert(w.tracks[k0] == f(t0));
        assert(w.tracks.contains(f(t0)));
        lemma_track_unique(w, f(t0));
        assert(f(t0).local_tracks[t0.local_tracks.len() as int] == t0.sink_for(subscriber_id));
    } else if v.can_subscribe(track_id, subscriber_id) {
    }
}

/// Dropping the tracks of a source keeps the table well formed, and none of them is left.
pub proof fn lemma_without_source_wf(v: TrackManagerView, peer_id: Seq<char>)
    requires
        v.wf(),
    ensures
        v.without_source(peer_id).wf(),
        forall|t: TrackView| #[trigger]
            v.without_source(peer_id).tracks.contains(t) ==> t.source_peer_id != peer_id,
        v.without_source(peer_id).track_ids_from(peer_id).len() == 0,
{
    let w = v.without_source(peer_id);
    lemma_filter_keys_distinct(v.tracks, track_not_from(peer_id), track_id_key());
    lemma_filter_members(v.tracks, track_not_from(peer_id));
    assert forall|t: TrackView| #[trigger] w.tracks.contains(t) implies t.wf() by {
        assert(v.tracks.contains(t));
    }
    lemma_filter_members(w.tracks, track_from(peer_id));
    let rest = w.tracks.filter(track_from(peer_id));
    if rest.len() > 0 {
        assert(rest.contains(rest[0]));
    }
}

/// Dropping the sinks of a subscriber keeps the table well formed, and no sink of the
/// subscriber is left.
pub proof fn lemma_without_subscriber_wf(v: TrackManagerView, peer_id: Seq<char>)
    requires
        v.wf(),
    ensures
        v.without_subscriber(peer_id).wf(),
        forall|t: TrackView, s: SinkView|
            #[trigger] v.without_subscriber(peer_id).tracks.contains(t)
                && #[trigger] t.local_tracks.contains(s) ==> s.subscriber_id != peer_id,
{
    let w = v.without_subscriber(peer_id);
    let f = drop_sinks_of(peer_id);
    assert forall|i: int, j: int| 0 <= i < j < w.tracks.len() implies track_id_key()(
        #[trigger] w.tracks[i],
    ) != track_id_key()(#[trigger] w.tracks[j]) by {
        assert(w.tracks[i].id == v.tracks[i].id && w.tracks[j].id == v.tracks[j].id);
    }
    assert forall|t: TrackView| #[trigger] w.tracks.contains(t) implies t.wf() && (forall|
        s: SinkView,
    | #[trigger] t.local_tracks.contains(s) ==> s.subscriber_id != peer_id) by {
        let k = choose|k: int| 0 <= k < w.tracks.len() && w.tracks[k] == t;
        let u = v.tracks[k];
        assert(v.tracks.contains(u));
        assert(t == f(u));
        lemma_filter_keys_distinct(u.local_tracks, sink_not_for(peer_id), sink_key());
        lemma_filter_members(u.local_tracks, sink_not_for(peer_id));
    }
}

fn clone_sink(k: &LocalSink) -> (r: LocalSink)
    ensures
        r@ == k@,
{
    LocalSink {
        subscriber_id: k.subscriber_id.clone(),
        track_id: k.track_id.clone(),
        stream_id: k.stream_id.clone(),
        codec: clone_codec(&k.codec),
    }
}

fn clone_track(t: &ForwardedTrack) -> (r: ForwardedTrack)
    ensures
        r@ == t@,
{
    let mut sinks: Vec<LocalSink> = Vec::new();
    let mut i: usize = 0;
    while i < t.local_tracks.len()
        invariant
            i <= t.local_tracks.len(),
            sinks.len() == i,
            forall|k: int| 0 <= k < i ==> (#[trigger] sinks[k])@ == t.local_tracks[k]@,
        decreases t.local_tracks.len() - i,
    {
        sinks.push(clone_sink(&t.local_tracks[i]));
        i += 1;
    }
    assert(sink_views(sinks@) =~= sink_views(t.local_tracks@));
    ForwardedTrack {
        id: t.id.clone(),
        kind: t.kind,
        source_peer_id: t.source_peer_id.clone(),
        remote_track: RemoteTrack {
            kind: t.remote_track.kind,
            ssrc: t.remote_track.ssrc,
            codec: clone_codec(&t.remote_track.codec),
        },
        local_tracks: sinks,
    }
}

fn find_sink(sinks: &Vec<LocalSink>, subscriber_id: &str) -> (r: Option<usize>)
    ensures
        match r {
            Some(k) => k < sinks.len() && sinks[k as int].subscriber_id@ == subscriber_id@,
            None => forall|k: int|
                0 <= k < sinks.len() ==> (#[trigger] sinks[k]).subscriber_id@ != subscriber_id@,
        },
{
    let mut i: usize = 0;
    while i < sinks.len()
        invariant
            i <= sinks.len(),
            forall|k: int| 0 <= k < i ==> (#[trigger] sinks[k]).subscriber_id@ != subscriber_id@,
        decreases sinks.len() - i,
    {
        if str_eq(sinks[i].subscriber_id.as_str(), subscriber_id) {
            return Some(i);
        }
        i += 1;
    }
    None
}

fn sinks_kept_but(sinks: &Vec<LocalSink>, peer_id: &str) -> (out: Vec<LocalSink>)
    ensures
        sink_views(out@) == sink_views(sinks@).filter(sink_not_for(peer_id@)),
{
    let mut out: Vec<LocalSink> = Vec::new();
    let mut i: usize = 0;
    proof {
        lemma_filter_start(sink_views(sinks@), sink_not_for(peer_id@));
        assert(sink_views(out@) =~= Seq::<SinkView>::empty());
    }
    while i < sinks.len()
        invariant
            i <= sinks.len(),
            sink_views(out@) == sink_views(sinks@).take(i as int).filter(sink_not_for(peer_id@)),
        decreases sinks.len() - i,
    {
        proof {
            lemma_filter_step(sink_views(sinks@), sink_not_for(peer_id@), i as int);
        }
        let ghost before = out@;
        if !str_eq(sinks[i].subscriber_id.as_str(), peer_id) {
            out.push(clone_sink(&sinks[i]));
            assert(sink_views(out@) =~= sink_views(before).push(sinks@[i as int]@));
        }
        i += 1;
    }
    assert(sink_views(sinks@).take(i as int) =~= sink_views(sinks@));
    out
}

fn tracks_kept_but(tracks: &Vec<ForwardedTrack>, id: &str) -> (out: Vec<ForwardedTrack>)
    ensures
        track_views(out@) == track_views(tracks@).filter(track_not(id@)),
{
    let mut out: Vec<ForwardedTrack> = Vec::new();
    let mut i: usize = 0;
    proof {
        lemma_filter_start(track_views(tracks@), track_not(id@));
        assert(track_views(out@) =~= Seq::<TrackView>::empty());
    }
    while i < tracks.len()
        invariant
            i <= tracks.len(),
            track_views(out@) == track_views(tracks@).take(i as int).filter(track_not(id@)),
        decreases tracks.len() - i,
    {
        proof {
            lemma_filter_step(track_views(tracks@), track_not(id@), i as int);
        }
        let ghost before = out@;
        if !str_eq(tracks[i].id.as_str(), id) {
            out.push(clone_track(&tracks[i]));
            assert(track_views(out@) =~= track_views(before).push(tracks@[i as int]@));
        }
        i += 1;
    }
    assert(track_views(tracks@).take(i as int) =~= track_views(tracks@));
    out
}

fn tracks_kept_not_from(tracks: &Vec<ForwardedTrack>, peer_id: &str) -> (out: Vec<ForwardedTrack>)
    ensures
        track_views(out@) == track_views(tracks@).filter(track_not_from(peer_id@)),
{
    let mut out: Vec<ForwardedTrack> = Vec::new();
    let mut i: usize = 0;
    proof {
        lemma_filter_start(track_views(tracks@), track_not_from(peer_id@));
        assert(track_views(out@) =~= Seq::<TrackView>::empty());
    }
    while i < tracks.len()
        invariant
            i <= tracks.len(),
            track_views(out@) == track_views(tracks@).take(i as int).filter(
                track_not_from(peer_id@),
            ),
        decreases tracks.len() - i,
    {
        proof {
            lemma_filter_step(track_views(tracks@), track_not_from(peer_id@), i as int);
        }
        let ghost before = out@;
        if !str_eq(tracks[i].source_peer_id.as_str(), peer_id) {
            out.push(clone_track(&tracks[i]));
            assert(track_views(out@) =~= track_views(before).push(tracks@[i as int]@));
        }
        i += 1;
    }
    assert(track_views(tracks@).take(i as int) =~= track_views(tracks@));
    out
}

/// The table of the tracks that the server forwards.
pub struct TrackManager {
    tracks: Vec<ForwardedTrack>,
}

impl View for TrackManager {
    type V = TrackManagerView;

    closed spec fn view(&self) -> TrackManagerView {
        TrackManagerView { tracks: track_views(self.tracks@) }
    }
}

impl TrackManager {
    /// An empty table.
    pub fn new() -> (m: TrackManager)
        ensures
            m@.tracks.len() == 0,
            m@.wf(),
    {
        TrackManager { tracks: Vec::new() }
    }

    fn find_track(&self, id: &str) -> (r: Option<usize>)
        ensures
            match r {
                Some(i) => i < self.tracks.len() && self.tracks[i as int].id@ == id@
                    && self@.tracks.contains(self.tracks[i as int]@),
                None => !self@.has_track(id@),
            },
    {
        let mut i: usize = 0;
        while i < self.tracks.len()
            invariant
                i <= self.tracks.len(),
                forall|k: int| 0 <= k < i ==> (#[trigger] self.tracks[k]).id@ != id@,
            decreases self.tracks.len() - i,
        {
            if str_eq(self.tracks[i].id.as_str(), id) {
                assert(self@.tracks[i as int] == self.tracks[i as int]@);
                return Some(i);
            }
            i += 1;
        }
        assert forall|t: TrackView| #[trigger] self@.tracks.contains(t) implies t.id != id@ by {
            let k = choose|k: int| 0 <= k < self@.tracks.len() && self@.tracks[k] == t;
            assert(t == self.tracks[k]@);
        }
        None
    }

    /// How many tracks there are.
    pub fn track_count(&self) -> (n: usize)
        ensures
            n == self@.tracks.len(),
    {
        self.tracks.len()
    }

    /// The track at a place of the table.
    pub fn track_at(&self, i: usize) -> (t: &ForwardedTrack)
        requires
            i < self@.tracks.len(),
        ensures
            t@ == self@.tracks[i as int],
    {
        &self.tracks[i]
    }

    /// Enters a track with no sink yet, in place of any earlier track of the same id.
    pub fn add_track(&mut self, track_id: String, source_peer_id: String, remote_track: RemoteTrack)
        requires
            old(self)@.wf(),
        ensures
            final(self)@.wf(),
            final(self)@ == old(self)@.with_track(track_id@, source_peer_id@, remote_track@),
    {
        proof {
            lemma_with_track_wf(self@, track_id@, source_peer_id@, remote_track@);
        }
        let mut tracks = tracks_kept_but(&self.tracks, track_id.as_str());
        let ghost kept = tracks@;
        let track = ForwardedTrack {
            id: track_id,
            kind: remote_track.kind,
            source_peer_id,
            remote_track,
            local_tracks: Vec::new(),
        };
        assert(track@.local_tracks =~= Seq::<SinkView>::empty());
        tracks.push(track);
        assert(track_views(tracks@) =~= track_views(kept).push(track@));
        self.tracks = tracks;
    }

    /// A copy of the track with this id, with the sinks it has now.
    pub fn get_track(&self, track_id: &str) -> (r: Option<ForwardedTrack>)
        requires
            self@.wf(),
        ensures
            match r {
                Some(t) => self@.has_track(track_id@) && t@ == self@.track(track_id@),
                None => !self@.has_track(track_id@),
            },
    {
        match self.find_track(track_id) {
            Some(i) => {
                proof {
                    lemma_track_unique(self@, self.tracks[i as int]@);
                }
                Some(clone_track(&self.tracks[i]))
            },
            None => None,
        }
    }

    /// The sink of a track for a subscriber, made now if the subscriber had none. With it come:
    /// whether it was made now, whether the track is video, the track's SSRC and its source.
    /// No sink is given for an unknown track, nor to the track's own source.
    pub fn create_local_track_for_peer(&mut self, track_id: &str, target_peer_id: &str) -> (res:
        Option<(LocalSink, bool, bool, u32, String)>)
        requires
            old(self)@.wf(),
        ensures
            final(self)@.wf(),
            final(self)@ == old(self)@.after_subscribe(track_id@, target_peer_id@),
            match res {
                Some(r) => {
                    &&& old(self)@.can_subscribe(track_id@, target_peer_id@)
                    &&& r.0@ == old(self)@.track(track_id@).sink_for(target_peer_id@)
                    &&& r.1 == old(self)@.makes_sink(track_id@, target_peer_id@)
                    &&& r.2 == (old(self)@.track(track_id@).kind == TrackKind::Video)
                    &&& r.3 == old(self)@.track(track_id@).remote_track.ssrc
                    &&& r.4@ == old(self)@.track(track_id@).source_peer_id
                },
                None => !old(self)@.can_subscribe(track_id@, target_peer_id@),
            },
    {
        proof {
            lemma_after_subscribe_wf(self@, track_id@, target_peer_id@);
        }
        let i = match self.find_track(track_id) {
            None => {
                return None;
            },
            Some(i) => i,
        };
        proof {
            lemma_track_unique(self@, self.tracks[i as int]@);
        }
        let ghost t0 = self.tracks[i as int]@;
        if str_eq(self.tracks[i].source_peer_id.as_str(), target_peer_id) {
            return None;
        }
        let is_video = self.tracks[i].kind == TrackKind::Video;
        let ssrc = self.tracks[i].remote_track.ssrc;
        let source = self.tracks[i].source_peer_id.clone();
        match find_sink(&self.tracks[i].local_tracks, target_peer_id) {
            Some(k) => {
                let sink = clone_sink(&self.tracks[i].local_tracks[k]);
                proof {
                    assert(t0.local_tracks[k as int] == sink@);
                    assert(t0.local_tracks.contains(sink@));
                }
                Some((sink, false, is_video, ssrc, source))
            },
            None => {
                proof {
                    if t0.has_sink(target_peer_id@) {
                        let s = t0.sink_for(target_peer_id@);
                        let k = choose|k: int|
                            0 <= k < t0.local_tracks.len() && t0.local_tracks[k] == s;
                        assert(t0.local_tracks[k] == self.tracks[i as int].local_tracks[k]@);
                    }
                }
                let mut stream_id = source.clone();
                stream_id.append("_stream");
                let sink = LocalSink {
                    subscriber_id: target_peer_id.to_owned(),
                    track_id: self.tracks[i].id.clone(),
                    stream_id,
                    codec: clone_codec(&self.tracks[i].remote_track.codec),
                };
                let copy = clone_sink(&sink);
                let ghost before = self.tracks@;
                self.tracks[i].local_tracks.push(sink);
                proof {
                    let f = add_sink(track_id@, target_peer_id@);
                    let old_views = track_views(before);
                    assert(sink_views(self.tracks[i as int].local_tracks@) =~= sink_views(
                        before[i as int].local_tracks@,
                    ).push(sink@));
                    assert forall|k: int| 0 <= k < before.len() implies #[trigger] track_views(
                        self.tracks@,
                    )[k] == f(old_views[k]) by {
                        if k != i {
                            assert(self.tracks[k] == before[k]);
                            if k < i {
                                assert(track_id_key()(old_views[k]) != track_id_key()(
                                    old_views[i as int],
                                ));
                            } else {
                                assert(track_id_key()(old_views[i as int]) != track_id_key()(
                                    old_views[k],
                                ));
                            }
                        }
                    }
                    assert(track_views(self.tracks@) =~= old_views.map_values(f));
                }
                Some((copy, true, is_video, ssrc, source))
            },
        }
    }

    /// The ids of the tracks that come from a peer.
    pub fn get_tracks_from_peer(&self, peer_id: &str) -> (r: Vec<String>)
        ensures
            text_views(r@) == self@.track_ids_from(peer_id@),
    {
        let mut out: Vec<String> = Vec::new();
        let mut i: usize = 0;
        let ghost views = track_views(self.tracks@);
        proof {
            lemma_filter_start(views, track_from(peer_id@));
            assert(text_views(out@) =~= views.take(0).filter(track_from(peer_id@)).map_values(
                track_id_of(),
            ));
        }
        while i < self.tracks.len()
            invariant
                i <= self.tracks.len(),
                views == track_views(self.tracks@),
                text_views(out@) == views.take(i as int).filter(track_from(peer_id@)).map_values(
                    track_id_of(),
                ),
            decreases self.tracks.len() - i,
        {
            proof {
                lemma_filter_step(views, track_from(peer_id@), i as int);
            }
            let ghost before = out@;
            if str_eq(self.tracks[i].source_peer_id.as_str(), peer_id) {
                out.push(self.tracks[i].id.clone());
                assert(text_views(out@) =~= text_views(before).push(self.tracks[i as int].id@));
                assert(views.take(i as int).filter(track_from(peer_id@)).push(
                    views[i as int],
                ).map_values(track_id_of()) =~= views.take(i as int).filter(
                    track_from(peer_id@),
                ).map_values(track_id_of()).push(views[i as int].id));
            }
            i += 1;
        }
        assert(views.take(i as int) =~= views);
        out
    }

    /// Drops every track that comes from a peer, with its sinks.
    pub fn remove_peer_tracks(&mut self, peer_id: &str)
        requires
            old(self)@.wf(),
        ensures
            final(self)@.wf(),
            final(self)@ == old(self)@.without_source(peer_id@),
    {
        proof {
            lemma_without_source_wf(self@, peer_id@);
        }
        let tracks = tracks_kept_not_from(&self.tracks, peer_id);
        self.tracks = tracks;
    }

    /// Drops the sinks that a subscriber has, in every track.
    pub fn remove_peer_sinks(&mut self, peer_id: &str)
        requires
            old(self)@.wf(),
        ensures
            final(self)@.wf(),
            final(self)@ == old(self)@.without_subscriber(peer_id@),
    {
        proof {
            lemma_without_subscriber_wf(self@, peer_id@);
        }
        let ghost before = self.tracks@;
        let mut i: usize = 0;
        while i < self.tracks.len()
            invariant
                i <= self.tracks.len(),
                self.tracks.len() == before.len(),
                forall|k: int|
                    0 <= k < i ==> (#[trigger] self.tracks[k])@ == drop_sinks_of(peer_id@)(
                        before[k]@,
                    ),
                forall|k: int| i <= k < before.len() ==> #[trigger] self.tracks[k] == before[k],
            decreases self.tracks.len() - i,
        {
            let kept = sinks_kept_but(&self.tracks[i].local_tracks, peer_id);
            self.tracks[i].local_tracks = kept;
            i += 1;
        }
        assert(track_views(self.tracks@) =~= track_views(before).map_values(
            drop_sinks_of(peer_id@),
        ));
    }

    /// The ids of all tracks.
    pub fn get_all_track_ids(&self) -> (r: Vec<String>)
        ensures
            text_views(r@) == self@.track_ids(),
    {
        let mut out: Vec<String> = Vec::new();
        let mut i: usize = 0;
        while i < self.tracks.len()
            invariant
                i <= self.tracks.len(),
                out.len() == i,
                forall|k: int| 0 <= k < i ==> (#[trigger] out[k])@ == self.tracks[k].id@,
            decreases self.tracks.len() - i,
        {
            out.push(self.tracks[i].id.clone());
            i += 1;
        }
        assert(text_views(out@) =~= track_views(self.tracks@).map_values(track_id_of()));
        out
    }
}

} // verus!
