//! Wire contracts: versioned event records and voice signaling frames.
pub mod events;
pub mod voice_signaling;
