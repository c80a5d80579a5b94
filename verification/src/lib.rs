//! Identifier codec and key-exchange correlation engine of a streaming-media
//! session client.
//!
//! The codec turns a 128-bit entity identifier into its three fixed-width
//! forms and back ([`spotify_id`]), and writes a 160-bit content identifier
//! as text ([`file_id`]). The engine tags each key request with a sequence
//! number ([`sequence`]), builds its frame and reads the responses
//! ([`wire`]), and routes each response to the request that it answers
//! ([`audio_key`]).

pub mod alphabet;
pub mod audio_key;
pub mod channel;
pub mod file_id;
pub mod numeral;
pub mod sequence;
pub mod spotify_id;
pub mod wire;

pub use audio_key::{AudioKey, AudioKeyError, AudioKeyFuture, AudioKeyManager};
pub use file_id::FileId;
pub use sequence::SeqGenerator;
pub use spotify_id::{SpotifyId, SpotifyIdError};
