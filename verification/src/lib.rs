//! Verified core of a streaming channel: playout schedules, subtitle cues, input
//! selection and the decisions of a channel session.

pub mod channel_session;
pub mod clock;
pub mod config;
pub mod error;
pub mod frame;
pub mod input;
pub mod playout;
pub mod probe;
pub mod sources;
pub mod text;
pub mod transcode;
pub mod web_vtt;
