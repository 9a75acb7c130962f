//! The core of a node agent that keeps command sessions with a central manager:
//! the message codec, the session registry and its poller and reader decisions,
//! the plugin registry and the action runner.
pub mod json;
pub mod action;
pub mod plugin;
pub mod message;
pub mod session;
