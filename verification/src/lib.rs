//! Verified core of a multi-platform messenger client with a Discord backend:
//! message-markup tokenizing, voice (RTP) packet layout, gateway state
//! machines, REST/gateway reconciliation, and the shared data model.

pub mod text;
pub mod types;
pub mod rich;
pub mod api;
pub mod recording;
pub mod rtp;
pub mod encryption;
pub mod crypto;
pub mod voice;
pub mod voice_payloads;
pub mod channels;
pub mod voice_state;
pub mod legacy;
pub mod legacy_rest;
pub mod roster;
pub mod playback;
pub mod cdn;
pub mod auth;
pub mod convert;
pub mod gateway;
pub mod ring;
pub mod audio_session;
