pub mod pipeline;
pub mod recorder;
pub mod state;
