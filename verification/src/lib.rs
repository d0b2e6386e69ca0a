//! Core of a bridge between a chat client's buffers and a remote chat service.
//!
//! The crate keeps a mirror of the remote state, binds remote channels to host
//! buffers, renders message logs and dispatches remote events. Every effect on
//! the host is applied to an in-memory model of the host's buffers and recorded
//! as an action, so that the integration layer can replay it on the real host.

pub mod buffer;
pub mod channel_data;
pub mod connection;
pub mod discord;
pub mod event;
pub mod host;
pub mod message;
pub mod message_renderer;
pub mod mirror;
pub mod model;
pub mod mute;
pub mod names;
pub mod plugin;
pub mod seqs;
