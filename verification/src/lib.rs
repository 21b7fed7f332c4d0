//! Verified core of the Harbour Chat service: validation, authorization,
//! board feed ranking, comment trees, votes, gateway identity rules,
//! envelope encryption framing and upload checks.
pub mod board;
pub mod chat;
pub mod comments;
pub mod config;
pub mod contracts;
pub mod crypto;
pub mod entities;
pub mod envelope;
pub mod error;
pub mod gateway;
pub mod num;
pub mod realtime;
pub mod storage;
pub mod text;
pub mod users;
pub mod voice;
