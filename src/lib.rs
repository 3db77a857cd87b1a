//! Change-notification listener core: feed configuration, the change-record
//! wire codec, dispatch framing and the receive-session state machine.

pub mod varint;
pub mod record;
pub mod config;
pub mod render;
pub mod dispatch;
pub mod session;
pub mod auth_params;
