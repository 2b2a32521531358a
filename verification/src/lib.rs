//! Client-side network core of a chat application.
//!
//! The core mediates between a synchronous UI shell and a remote server
//! reached over a REST endpoint (captcha, signup, login) and a WebSocket
//! endpoint (bidirectional chat).  This crate holds the verified part:
//! the data model, the task registry that allocates generations and
//! routes results to callbacks, the message dispatcher that correlates
//! outbound sends with server acknowledgements, the session state
//! machine, and the JSON wire codec.  The asynchronous runtime, the
//! sockets and the UI live outside and drive these functions.

pub mod domain;
pub mod events;
pub mod registry;
pub mod session;
pub mod wire;
pub mod dispatch;
pub mod facade;
pub mod rest;
pub mod codec;
pub mod pages;
pub mod shell;
