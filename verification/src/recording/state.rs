use vstd::prelude::*;

verus! {

/// Where a recording stands.
#[derive(Debug, Clone, PartialEq, Eq)]
pub enum RecordingState {
    Idle,
    Recording,
    Stopping,
    Stopped,
    Error(String),
}

impl Default for RecordingState {
    fn default() -> (state: RecordingState)
        ensures
            state is Idle,
    {
        RecordingState::Idle
    }
}

} // verus!
