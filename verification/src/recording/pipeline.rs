use crate::error::SfuError;
use crate::recording::state::RecordingState;
use crate::text::{decimal_string, spec_decimal};
use vstd::prelude::*;
use vstd::string::*;

verus! {

/// How long a stopping recording waits for its muxer to finish, in seconds.
pub const EOS_WAIT_SECS: u64 = 5;

/// The ending of the files that recordings are written to.
pub const RECORDING_EXTENSION: &'static str = "webm";

/// The file of a recording: in the directory of its room, named by the peer and the time at
/// which the recording was made, in milliseconds since 1970.
pub open spec fn spec_output_path(
    output_dir: Seq<char>,
    room_id: Seq<char>,
    peer_id: Seq<char>,
    unix_ms: u64,
) -> Seq<char> {
    output_dir + "/"@ + room_id + "/"@ + peer_id + "_"@ + spec_decimal(unix_ms as nat) + "."@
        + RECORDING_EXTENSION@
}

/// The directory of the recordings of a room.
pub open spec fn spec_room_dir(output_dir: Seq<char>, room_id: Seq<char>) -> Seq<char> {
    output_dir + "/"@ + room_id
}

/// The directory of the recordings of a room.
pub fn room_dir(output_dir: &str, room_id: &str) -> (dir: String)
    ensures
        dir@ == spec_room_dir(output_dir@, room_id@),
{
    let mut dir = String::from_str(output_dir);
    dir.append("/");
    dir.append(room_id);
    dir
}

/// The recording of one peer: where it is written and where it stands.
#[derive(Debug, Clone, PartialEq, Eq)]
pub struct RecordingPipeline {
    pub output_path: String,
    pub state: RecordingState,
}

impl RecordingPipeline {
    /// A recording that has not begun.
    pub fn new(room_id: &str, peer_id: &str, output_dir: &str, unix_ms: u64) -> (pipeline:
        RecordingPipeline)
        ensures
            pipeline.output_path@ == spec_output_path(output_dir@, room_id@, peer_id@, unix_ms),
            pipeline.state is Idle,
    {
        let mut path = room_dir(output_dir, room_id);
        path.append("/");
        path.append(peer_id);
        path.append("_");
        let stamp = decimal_string(unix_ms);
        path.append(stamp.as_str());
        path.append(".");
        path.append(RECORDING_EXTENSION);
        assert(path@ =~= spec_output_path(output_dir@, room_id@, peer_id@, unix_ms));
        RecordingPipeline { output_path: path, state: RecordingState::Idle }
    }

    /// Begins the recording. Only a recording that has not begun can begin.
    pub fn start(&mut self) -> (res: Result<(), SfuError>)
        ensures
            final(self).output_path == old(self).output_path,
            match res {
                Ok(_) => old(self).state is Idle && final(self).state is Recording,
                Err(SfuError::Internal(e)) => !(old(self).state is Idle) && e@
                    == "Recording already started"@ && final(self).state == old(self).state,
                Err(_) => false,
            },
    {
        match self.state {
            RecordingState::Idle => {
                self.state = RecordingState::Recording;
                Ok(())
            },
            _ => Err(SfuError::Internal(String::from_str("Recording already started"))),
        }
    }

    /// Begins the end of the recording: from then on it takes no media, and its muxer is to
    /// finish. Only a recording that runs can end.
    pub fn stop(&mut self) -> (res: Result<(), SfuError>)
        ensures
            final(self).output_path == old(self).output_path,
            match res {
                Ok(_) => old(self).state is Recording && final(self).state is Stopping,
                Err(SfuError::Internal(e)) => !(old(self).state is Recording) && e@
                    == "Recording not in progress"@ && final(self).state == old(self).state,
                Err(_) => false,
            },
    {
        match self.state {
            RecordingState::Recording => {
                self.state = RecordingState::Stopping;
                Ok(())
            },
            _ => Err(SfuError::Internal(String::from_str("Recording not in progress"))),
        }
    }

    /// Ends the recording after its muxer has finished or failed: `failure` holds the words
    /// of the failure, if there was one. The file's path comes back for a recording that
    /// ended well.
    pub fn finish(&mut self, failure: Option<String>) -> (res: Result<String, SfuError>)
        requires
            old(self).state is Stopping,
        ensures
            final(self).output_path == old(self).output_path,
            match res {
                Ok(path) => failure is None && final(self).state is Stopped && path@
                    == old(self).output_path@,
                Err(SfuError::MuxerFailed(e)) => {
                    &&& failure is Some
                    &&& e@ == failure->0@
                    &&& final(self).state is Error
                    &&& final(self).state->Error_0@ == failure->0@
                },
                Err(_) => false,
            },
    {
        match failure {
            None => {
                self.state = RecordingState::Stopped;
                Ok(self.output_path.clone())
            },
            Some(words) => {
                self.state = RecordingState::Error(words.clone());
                Err(SfuError::MuxerFailed(words))
            },
        }
    }

    /// Whether a video packet goes into the recording: while it runs.
    pub fn push_video_rtp(&self) -> (wanted: bool)
        ensures
            wanted == (self.state is Recording),
    {
        match self.state {
            RecordingState::Recording => true,
            _ => false,
        }
    }

    /// Whether an audio packet goes into the recording: while it runs.
    pub fn push_audio_rtp(&self) -> (wanted: bool)
        ensures
            wanted == (self.state is Recording),
    {
        match self.state {
            RecordingState::Recording => true,
            _ => false,
        }
    }

    /// Where the recording stands.
    pub fn get_state(&self) -> (state: RecordingState)
        ensures
            state == self.state,
    {
        match &self.state {
            RecordingState::Idle => RecordingState::Idle,
            RecordingState::Recording => RecordingState::Recording,
            RecordingState::Stopping => RecordingState::Stopping,
            RecordingState::Stopped => RecordingState::Stopped,
            RecordingState::Error(e) => RecordingState::Error(e.clone()),
        }
    }

    /// The file that the recording is written to.
    pub fn output_path(&self) -> (path: &String)
        ensures
            path == self.output_path,
    {
        &self.output_path
    }
}

} // verus!
