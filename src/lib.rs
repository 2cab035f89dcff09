//! A client for the Gateway push protocol: a wire codec for its JSON
//! envelopes, the Hello/Identify handshake, the heartbeat schedule and the
//! event loop's decisions, each stated as a contract and proved.
pub mod codec;
pub mod discord;
pub mod json;
pub mod session;
pub mod gateway;
