//! Verified core of a Discord text-to-speech bot: message cleaning,
//! command interpretation, per-guild TTS state and starboard embeds.

pub mod text;
pub mod mention;
pub mod voice;
pub mod pattern;
pub mod clean;
pub mod guild;
pub mod commands;
pub mod starboard;
