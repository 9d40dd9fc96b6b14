pub mod api;
pub mod config;
pub mod error;
pub mod ipfs;
pub mod recording;
pub mod seq_lemmas;
pub mod sfu;
pub mod strmap;
pub mod substrate;
pub mod text;
