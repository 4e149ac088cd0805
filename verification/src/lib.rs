//! Core of a real-time connection broker.
//!
//! The broker accepts client connections over two transports (raw TCP
//! sockets and WebSocket upgrades), tracks each connection as a session in a
//! shared registry, and lets server-side logic push a payload to one session
//! or broadcast it to all of them. A command streamer runs one external
//! process and forwards its standard output line by line to every connected
//! session, bounded by a hard timeout.
//!
//! This crate holds the verified decision logic: the session registry, the
//! per-session lifecycle state machine, unicast/broadcast dispatch planning,
//! the read-loop step functions of both transports, and the command-run state
//! machine. The surrounding program performs the actual network and process
//! I/O and feeds the outcomes back in as plain events; every registry access
//! is serialised by the caller through one coarse lock, which is never held
//! across an I/O call.

pub mod dispatch;
pub mod ids;
pub mod registry;
pub mod session;
pub mod streamer;
pub mod transport;
