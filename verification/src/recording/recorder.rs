use crate::error::SfuError;
use crate::recording::pipeline::{spec_output_path, RecordingPipeline};
use crate::recording::state::RecordingState;
use crate::seq_lemmas::{
    keys_distinct, lemma_filter_keys_distinct, lemma_filter_members, lemma_filter_start,
    lemma_filter_step,
};
use crate::text::{str_eq, text_views};
use vstd::prelude::*;
use vstd::string::*;

verus! {

/// The recording of one peer of one room.
#[derive(Debug, Clone, PartialEq, Eq)]
pub struct Recording {
    pub room_id: String,
    pub peer_id: String,
    pub pipeline: RecordingPipeline,
}

/// A recording as the contracts see it.
pub struct RecordingView {
    pub room_id: Seq<char>,
    pub peer_id: Seq<char>,
    pub output_path: Seq<char>,
    pub state: RecordingState,
}

impl View for Recording {
    type V = RecordingView;

    open spec fn view(&self) -> RecordingView {
        RecordingView {
            room_id: self.room_id@,
            peer_id: self.peer_id@,
            output_path: self.pipeline.output_path@,
            state: self.pipeline.state,
        }
    }
}

/// The recordings of a list as the contracts see them.
pub open spec fn recording_views(s: Seq<Recording>) -> Seq<RecordingView> {
    s.map_values(|r: Recording| r@)
}

/// The room and the peer of a recording.
pub open spec fn recording_key() -> spec_fn(RecordingView) -> (Seq<char>, Seq<char>) {
    |r: RecordingView| (r.room_id, r.peer_id)
}

/// Holds of the recordings of other peers than `peer_id` of the room `room_id`.
pub open spec fn recording_not(room_id: Seq<char>, peer_id: Seq<char>) -> spec_fn(
    RecordingView,
) -> bool {
    |r: RecordingView| !(r.room_id == room_id && r.peer_id == peer_id)
}

/// Holds of the recordings of the room `room_id`.
pub open spec fn recording_in(room_id: Seq<char>) -> spec_fn(RecordingView) -> bool {
    |r: RecordingView| r.room_id == room_id
}

/// Holds of the recordings of other rooms than `room_id`.
pub open spec fn recording_outside(room_id: Seq<char>) -> spec_fn(RecordingView) -> bool {
    |r: RecordingView| r.room_id != room_id
}

/// The peer of a recording.
pub open spec fn recorded_peer() -> spec_fn(RecordingView) -> Seq<char> {
    |r: RecordingView| r.peer_id
}

/// A recording that has begun to end.
pub open spec fn stopping() -> spec_fn(RecordingView) -> RecordingView {
    |r: RecordingView| RecordingView { state: RecordingState::Stopping, ..r }
}

/// The recordings as the contracts see them, in the order in which they began.
pub struct RecordingManagerView {
    pub recordings: Seq<RecordingView>,
    pub output_dir: Seq<char>,
}

impl RecordingManagerView {
    /// Whether a peer of a room is recorded.
    pub open spec fn has(self, room_id: Seq<char>, peer_id: Seq<char>) -> bool {
        exists|r: RecordingView| #[trigger]
            self.recordings.contains(r) && r.room_id == room_id && r.peer_id == peer_id
    }

    /// The recording of a peer of a room, where there is one.
    pub open spec fn recording(self, room_id: Seq<char>, peer_id: Seq<char>) -> RecordingView {
        choose|r: RecordingView| #[trigger]
            self.recordings.contains(r) && r.room_id == room_id && r.peer_id == peer_id
    }

    /// No peer of a room has two recordings, and every recording runs.
    pub open spec fn wf(self) -> bool {
        &&& keys_distinct(self.recordings, recording_key())
        &&& forall|r: RecordingView| #[trigger] self.recordings.contains(r) ==> r.state is Recording
    }

    /// The recordings of a room.
    pub open spec fn of_room(self, room_id: Seq<char>) -> Seq<RecordingView> {
        self.recordings.filter(recording_in(room_id))
    }

    /// The recordings without that of a peer of a room.
    pub open spec fn without(self, room_id: Seq<char>, peer_id: Seq<char>) -> RecordingManagerView {
        RecordingManagerView {
            recordings: self.recordings.filter(recording_not(room_id, peer_id)),
            ..self
        }
    }

    /// The recordings without those of a room.
    pub open spec fn without_room(self, room_id: Seq<char>) -> RecordingManagerView {
        RecordingManagerView {
            recordings: self.recordings.filter(recording_outside(room_id)),
            ..self
        }
    }
}

/// With distinct keys, a recording that is in the table is the one that its room and peer
/// name.
pub proof fn lemma_recording_unique(v: RecordingManagerView, r: RecordingView)
    requires
        keys_distinct(v.recordings, recording_key()),
        v.recordings.contains(r),
    ensures
        v.has(r.room_id, r.peer_id),
        v.recording(r.room_id, r.peer_id) == r,
{
    let q = v.recording(r.room_id, r.peer_id);
    assert(v.recordings.contains(q) && q.room_id == r.room_id && q.peer_id == r.peer_id);
    let i = choose|i: int| 0 <= i < v.recordings.len() && v.recordings[i] == r;
    let j = choose|j: int| 0 <= j < v.recordings.len() && v.recordings[j] == q;
    if i < j {
        assert(recording_key()(v.recordings[i]) != recording_key()(v.recordings[j]));
    }
    if j < i {
        assert(recording_key()(v.recordings[j]) != recording_key()(v.recordings[i]));
    }
}

/// Taking recordings out keeps the table well formed.
proof fn lemma_filter_wf(v: RecordingManagerView, pred: spec_fn(RecordingView) -> bool)
    requires
        v.wf(),
    ensures
        (RecordingManagerView { recordings: v.recordings.filter(pred), ..v }).wf(),
{
    lemma_filter_keys_distinct(v.recordings, pred, recording_key());
    lemma_filter_members(v.recordings, pred);
}

/// The text that names the recording of a peer of a room in a message.
pub open spec fn recording_name(room_id: Seq<char>, peer_id: Seq<char>) -> Seq<char> {
    "peer "@ + peer_id + " in room "@ + room_id
}

fn recording_name_string(room_id: &str, peer_id: &str) -> (name: String)
    ensures
        name@ == recording_name(room_id@, peer_id@),
{
    let mut name = String::from_str("peer ");
    name.append(peer_id);
    name.append(" in room ");
    name.append(room_id);
    name
}

/// The recordings that run, and the directory under which their files are written.
pub struct RecordingManager {
    recordings: Vec<Recording>,
    output_dir: String,
}

impl View for RecordingManager {
    type V = RecordingManagerView;

    closed spec fn view(&self) -> RecordingManagerView {
        RecordingManagerView {
            recordings: recording_views(self.recordings@),
            output_dir: self.output_dir@,
        }
    }
}

impl RecordingManager {
    /// A manager without recordings.
    pub fn new(output_dir: &str) -> (m: RecordingManager)
        ensures
            m@.wf(),
            m@.recordings.len() == 0,
            m@.output_dir == output_dir@,
    {
        RecordingManager { recordings: Vec::new(), output_dir: output_dir.to_owned() }
    }

    fn find(&self, room_id: &str, peer_id: &str) -> (r: Option<usize>)
        ensures
            match r {
                Some(i) => i < self.recordings.len() && self.recordings[i as int].room_id@
                    == room_id@ && self.recordings[i as int].peer_id@ == peer_id@
                    && self@.recordings.contains(self.recordings[i as int]@),
                None => !self@.has(room_id@, peer_id@),
            },
    {
        let mut i: usize = 0;
        while i < self.recordings.len()
            invariant
                i <= self.recordings.len(),
                forall|k: int|
                    0 <= k < i ==> !((#[trigger] self.recordings[k]).room_id@ == room_id@
                        && self.recordings[k].peer_id@ == peer_id@),
            decreases self.recordings.len() - i,
        {
            if str_eq(self.recordings[i].room_id.as_str(), room_id) && str_eq(
                self.recordings[i].peer_id.as_str(),
                peer_id,
            ) {
                assert(self@.recordings[i as int] == self.recordings[i as int]@);
                return Some(i);
            }
            i += 1;
        }
        assert forall|r: RecordingView| #[trigger] self@.recordings.contains(r) implies !(r.room_id
            == room_id@ && r.peer_id == peer_id@) by {
            let k = choose|k: int| 0 <= k < self@.recordings.len() && self@.recordings[k] == r;
            assert(r == self.recordings[k]@);
        }
        None
    }

    /// Whether a peer of a room is recorded.
    pub fn is_recording(&self, room_id: &str, peer_id: &str) -> (b: bool)
        ensures
            b == self@.has(room_id@, peer_id@),
    {
        self.find(room_id, peer_id).is_some()
    }

    /// Begins the recording of a peer of a room at the time `unix_ms`, and says to which file
    /// it is written. A peer that is recorded already is not recorded twice.
    pub fn start_recording(&mut self, room_id: &str, peer_id: &str, unix_ms: u64) -> (res: Result<
        String,
        SfuError,
    >)
        requires
            old(self)@.wf(),
        ensures
            final(self)@.wf(),
            match res {
                Ok(path) => {
                    &&& !old(self)@.has(room_id@, peer_id@)
                    &&& path@ == spec_output_path(
                        old(self)@.output_dir,
                        room_id@,
                        peer_id@,
                        unix_ms,
                    )
                    &&& final(self)@ == (RecordingManagerView {
                        recordings: old(self)@.recordings.push(
                            RecordingView {
                                room_id: room_id@,
                                peer_id: peer_id@,
                                output_path: path@,
                                state: RecordingState::Recording,
                            },
                        ),
                        ..old(self)@
                    })
                },
                Err(SfuError::RecordingAlreadyActive(e)) => {
                    &&& old(self)@.has(room_id@, peer_id@)
                    &&& e@ == recording_name(room_id@, peer_id@)
                    &&& final(self)@ == old(self)@
                },
                Err(_) => false,
            },
    {
        if self.find(room_id, peer_id).is_some() {
            return Err(SfuError::RecordingAlreadyActive(recording_name_string(room_id, peer_id)));
        }
        let mut pipeline = RecordingPipeline::new(
            room_id,
            peer_id,
            self.output_dir.as_str(),
            unix_ms,
        );
        let _ = pipeline.start();
        let path = pipeline.output_path.clone();
        let ghost before = self.recordings@;
        let entry = Recording {
            room_id: room_id.to_owned(),
            peer_id: peer_id.to_owned(),
            pipeline,
        };
        self.recordings.push(entry);
        proof {
            let old_views = recording_views(before);
            let new_views = recording_views(self.recordings@);
            assert(new_views =~= old_views.push(entry@));
            assert forall|i: int, j: int| 0 <= i < j < new_views.len() implies recording_key()(
                #[trigger] new_views[i],
            ) != recording_key()(#[trigger] new_views[j]) by {
                if j == old_views.len() {
                    assert(old_views.contains(old_views[i]));
                } else {
                    assert(new_views[i] == old_views[i] && new_views[j] == old_views[j]);
                }
            }
            assert forall|r: RecordingView| #[trigger] new_views.contains(r) implies r.state is Recording by {
                let k = choose|k: int| 0 <= k < new_views.len() && new_views[k] == r;
                if k < old_views.len() {
                    assert(old_views.contains(old_views[k]));
                }
            }
        }
        Ok(path)
    }

    fn take(&mut self, i: usize) -> (pipeline: RecordingPipeline)
        requires
            i < old(self).recordings.len(),
            old(self)@.wf(),
        ensures
            final(self)@.wf(),
            final(self)@ == old(self)@.without(
                old(self).recordings[i as int].room_id@,
                old(self).recordings[i as int].peer_id@,
            ),
            pipeline.output_path@ == old(self).recordings[i as int].pipeline.output_path@,
            pipeline.state is Stopping,
    {
        let ghost views = recording_views(self.recordings@);
        let ghost room = self.recordings[i as int].room_id@;
        let ghost peer = self.recordings[i as int].peer_id@;
        let entry = self.recordings.remove(i);
        proof {
            let pred = recording_not(room, peer);
            assert(views.contains(views[i as int]));
            lemma_filter_wf(old(self)@, pred);
            assert(recording_views(self.recordings@) =~= views.remove(i as int));
            let front = views.take(i as int);
            let back = views.skip(i + 1);
            assert(views =~= front + seq![views[i as int]] + back);
            assert forall|k: int| 0 <= k < front.len() implies pred(#[trigger] front[k]) by {
                assert(recording_key()(views[k]) != recording_key()(views[i as int]));
            }
            assert forall|k: int| 0 <= k < back.len() implies pred(#[trigger] back[k]) by {
                assert(back[k] == views[i + 1 + k]);
                assert(recording_key()(views[i as int]) != recording_key()(views[i + 1 + k]));
            }
            crate::seq_lemmas::lemma_filter_all(front, pred);
            crate::seq_lemmas::lemma_filter_all(back, pred);
            seq![views[i as int]].lemma_all_neg_filter_empty(pred);
            Seq::filter_distributes_over_add(front + seq![views[i as int]], back, pred);
            Seq::filter_distributes_over_add(front, seq![views[i as int]], pred);
            assert(views.filter(pred) =~= front + back);
            assert(views.remove(i as int) =~= front + back);
        }
        let mut pipeline = entry.pipeline;
        let _ = pipeline.stop();
        pipeline
    }

    /// Begins the end of the recording of a peer of a room and takes it off the table. What
    /// comes back is the recording, to be finished once its muxer is done.
    pub fn stop_recording(&mut self, room_id: &str, peer_id: &str) -> (res: Result<
        RecordingPipeline,
        SfuError,
    >)
        requires
            old(self)@.wf(),
        ensures
            final(self)@.wf(),
            match res {
                Ok(pipeline) => {
                    &&& old(self)@.has(room_id@, peer_id@)
                    &&& pipeline.output_path@ == old(self)@.recording(
                        room_id@,
                        peer_id@,
                    ).output_path
                    &&& pipeline.state is Stopping
                    &&& final(self)@ == old(self)@.without(room_id@, peer_id@)
                },
                Err(SfuError::RecordingNotFound(e)) => {
                    &&& !old(self)@.has(room_id@, peer_id@)
                    &&& e@ == recording_name(room_id@, peer_id@)
                    &&& final(self)@ == old(self)@
                },
                Err(_) => false,
            },
    {
        match self.find(room_id, peer_id) {
            None => Err(SfuError::RecordingNotFound(recording_name_string(room_id, peer_id))),
            Some(i) => {
                proof {
                    lemma_recording_unique(self@, self.recordings[i as int]@);
                }
                Ok(self.take(i))
            },
        }
    }

    /// Where the recording of a peer of a room stands.
    pub fn get_recording_state(&self, room_id: &str, peer_id: &str) -> (state: Option<
        RecordingState,
    >)
        requires
            self@.wf(),
        ensures
            match state {
                Some(s) => self@.has(room_id@, peer_id@) && s == self@.recording(
                    room_id@,
                    peer_id@,
                ).state,
                None => !self@.has(room_id@, peer_id@),
            },
    {
        match self.find(room_id, peer_id) {
            None => None,
            Some(i) => {
                proof {
                    lemma_recording_unique(self@, self.recordings[i as int]@);
                }
                Some(self.recordings[i].pipeline.get_state())
            },
        }
    }

    /// Whether video of a peer of a room goes to a recording: if the peer is recorded.
    pub fn push_video_rtp(&self, room_id: &str, peer_id: &str) -> (wanted: bool)
        ensures
            wanted == self@.has(room_id@, peer_id@),
    {
        self.is_recording(room_id, peer_id)
    }

    /// Whether audio of a peer of a room goes to a recording: if the peer is recorded.
    pub fn push_audio_rtp(&self, room_id: &str, peer_id: &str) -> (wanted: bool)
        ensures
            wanted == self@.has(room_id@, peer_id@),
    {
        self.is_recording(room_id, peer_id)
    }

    /// The peers of a room that are recorded.
    pub fn get_recording_peers(&self, room_id: &str) -> (peers: Vec<String>)
        ensures
            text_views(peers@) == self@.of_room(room_id@).map_values(recorded_peer()),
    {
        let mut out: Vec<String> = Vec::new();
        let ghost views = recording_views(self.recordings@);
        let ghost pred = recording_in(room_id@);
        let mut i: usize = 0;
        proof {
            lemma_filter_start(views, pred);
            assert(text_views(out@) =~= views.take(0).filter(pred).map_values(recorded_peer()));
        }
        while i < self.recordings.len()
            invariant
                i <= self.recordings.len(),
                views == recording_views(self.recordings@),
                pred == recording_in(room_id@),
                text_views(out@) == views.take(i as int).filter(pred).map_values(recorded_peer()),
            decreases self.recordings.len() - i,
        {
            proof {
                lemma_filter_step(views, pred, i as int);
            }
            let ghost before = out@;
            if str_eq(self.recordings[i].room_id.as_str(), room_id) {
                out.push(self.recordings[i].peer_id.clone());
                assert(text_views(out@) =~= text_views(before).push(views[i as int].peer_id));
                assert(views.take(i as int).filter(pred).push(views[i as int]).map_values(
                    recorded_peer(),
                ) =~= views.take(i as int).filter(pred).map_values(recorded_peer()).push(
                    views[i as int].peer_id,
                ));
            }
            i += 1;
        }
        assert(views.take(i as int) =~= views);
        out
    }

    /// Whether any peer of a room is recorded.
    pub fn is_room_recording(&self, room_id: &str) -> (b: bool)
        ensures
            b == (self@.of_room(room_id@).len() > 0),
    {
        let peers = self.get_recording_peers(room_id);
        assert(text_views(peers@).len() == peers@.len());
        assert(self@.of_room(room_id@).map_values(recorded_peer()).len() == self@.of_room(
            room_id@,
        ).len());
        peers.len() > 0
    }

    /// Begins the end of every recording of a room and takes them off the table. The
    /// recordings come back with their peers, in the order in which they began.
    pub fn stop_all_recordings_in_room(&mut self, room_id: &str) -> (stopped: Vec<
        (String, RecordingPipeline),
    >)
        requires
            old(self)@.wf(),
        ensures
            final(self)@.wf(),
            final(self)@ == old(self)@.without_room(room_id@),
            stopped@.len() == old(self)@.of_room(room_id@).len(),
            forall|k: int|
                0 <= k < stopped@.len() ==> {
                    &&& (#[trigger] stopped@[k]).0@ == old(self)@.of_room(room_id@)[k].peer_id
                    &&& stopped@[k].1.output_path@ == old(self)@.of_room(room_id@)[k].output_path
                    &&& stopped@[k].1.state is Stopping
                },
    {
        let mut stopped: Vec<(String, RecordingPipeline)> = Vec::new();
        let mut kept: Vec<Recording> = Vec::new();
        let ghost views = recording_views(self.recordings@);
        let ghost inside = recording_in(room_id@);
        let ghost outside = recording_outside(room_id@);
        let mut i: usize = 0;
        proof {
            lemma_filter_start(views, inside);
            lemma_filter_start(views, outside);
            lemma_filter_wf(self@, outside);
            assert(recording_views(kept@) =~= Seq::<RecordingView>::empty());
        }
        while i < self.recordings.len()
            invariant
                i <= self.recordings.len(),
                views == recording_views(self.recordings@),
                inside == recording_in(room_id@),
                outside == recording_outside(room_id@),
                recording_views(kept@) == views.take(i as int).filter(outside),
                stopped@.len() == views.take(i as int).filter(inside).len(),
                forall|k: int|
                    0 <= k < stopped@.len() ==> {
                        &&& (#[trigger] stopped@[k]).0@ == views.take(i as int).filter(
                            inside,
                        )[k].peer_id
                        &&& stopped@[k].1.output_path@ == views.take(i as int).filter(
                            inside,
                        )[k].output_path
                        &&& stopped@[k].1.state is Stopping
                    },
            decreases self.recordings.len() - i,
        {
            proof {
                lemma_filter_step(views, inside, i as int);
                lemma_filter_step(views, outside, i as int);
            }
            let entry = &self.recordings[i];
            let ghost kept_before = kept@;
            if str_eq(entry.room_id.as_str(), room_id) {
                stopped.push(
                    (
                        entry.peer_id.clone(),
                        RecordingPipeline {
                            output_path: entry.pipeline.output_path.clone(),
                            state: RecordingState::Stopping,
                        },
                    ),
                );
            } else {
                kept.push(
                    Recording {
                        room_id: entry.room_id.clone(),
                        peer_id: entry.peer_id.clone(),
                        pipeline: RecordingPipeline {
                            output_path: entry.pipeline.output_path.clone(),
                            state: entry.pipeline.get_state(),
                        },
                    },
                );
                assert(recording_views(kept@) =~= recording_views(kept_before).push(
                    views[i as int],
                ));
            }
            i += 1;
        }
        assert(views.take(i as int) =~= views);
        self.recordings = kept;
        stopped
    }

    /// Ends the recording of a peer that leaves, if the peer is recorded.
    pub fn cleanup_peer(&mut self, room_id: &str, peer_id: &str) -> (stopped: Option<
        RecordingPipeline,
    >)
        requires
            old(self)@.wf(),
        ensures
            final(self)@.wf(),
            match stopped {
                Some(pipeline) => {
                    &&& old(self)@.has(room_id@, peer_id@)
                    &&& pipeline.output_path@ == old(self)@.recording(
                        room_id@,
                        peer_id@,
                    ).output_path
                    &&& pipeline.state is Stopping
                    &&& final(self)@ == old(self)@.without(room_id@, peer_id@)
                },
                None => !old(self)@.has(room_id@, peer_id@) && final(self)@ == old(self)@,
            },
    {
        match self.stop_recording(room_id, peer_id) {
            Ok(pipeline) => Some(pipeline),
            Err(_) => None,
        }
    }

    /// Ends every recording of a room that closes, and says how many there were.
    pub fn cleanup_room(&mut self, room_id: &str) -> (count: usize)
        requires
            old(self)@.wf(),
        ensures
            final(self)@.wf(),
            final(self)@ == old(self)@.without_room(room_id@),
            count == old(self)@.of_room(room_id@).len(),
    {
        let stopped = self.stop_all_recordings_in_room(room_id);
        stopped.len()
    }
}

} // verus!
