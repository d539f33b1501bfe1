//! Verified core of a programmable HTTP test double: a server that a test
//! starts on a background thread, whose requests the test inspects and whose
//! responses it scripts.
//!
//! The library holds what is decided and computed: how a request becomes a
//! snapshot (`middleware`), how snapshots queue up for the test thread and in
//! which order they come out (`requests`, `staging`), how scripted directives
//! shape a response (`reply`), what the startup handshake means and how a
//! server gets from running to stopped (`server`). The thread, the socket and
//! the HTTP engine belong to the program around it.
//!
//! Four crates do work for the library that is taken on trust: `bytes` holds
//! bodies (`buffer`), `crossbeam_channel` carries values between the threads
//! (`channel`), `http` reads header values as text and `rand` draws random
//! text. Each such call has its own item whose comment says what is taken for
//! granted.

pub mod buffer;
pub mod channel;
pub mod helper;
pub mod middleware;
pub mod reply;
pub mod requests;
pub mod server;
pub mod staging;
pub mod text;

pub use requests::{Request, RequestReceiver};
pub use server::{new, TestServer};
