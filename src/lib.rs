//! Relays a player's chat lines from a growing game log to a voice channel:
//! incremental log tailing and chat extraction, ordered speech synthesis, and
//! playback gated by a push-to-talk key.

pub mod audio_player;
pub mod log_watcher;
pub mod message_processor;
pub mod pipeline;
pub mod text;
