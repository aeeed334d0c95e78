//! A pluggable userspace proxy runtime: the net abstraction and the pieces
//! that every provider shares.
//!
//! The crate holds the decisions of the runtime as plain, synchronous
//! functions with machine-checked contracts. Everything that waits (sockets,
//! timers, tasks) lives with the caller, which feeds events in and carries
//! actions out.
//!
//! - [`address`], [`parse`], [`context`], [`error`]: target addresses and
//!   their text form, the context of a call, the error kinds.
//! - [`net`]: the interface of a net, and nets stacked on nets.
//! - [`pipe`], [`virtual_host`], [`host_laws`]: the in-memory fabric, and
//!   what holds of it.
//! - [`relay`]: the splice between two streams and the table of a datagram
//!   bridge.
//! - [`registry`], [`topology`]: the kinds that can be built, the
//!   configuration document, and the order in which its nets are built.
//! - [`controller`], [`event`]: the reload loop and the event plane.
//! - [`config`]: where configuration documents come from.
//! - [`remote`]: the remote tunnel.
//! - [`server`], [`forward`], [`socks5`], [`ss`]: the harness of inbound
//!   providers, and providers.

pub mod address;
pub mod config;
pub mod context;
pub mod controller;
pub mod error;
pub mod event;
pub mod forward;
pub mod host_laws;
pub mod net;
pub mod parse;
pub mod pipe;
pub mod registry;
pub mod relay;
pub mod remote;
pub mod server;
pub mod socks5;
pub mod ss;
pub mod topology;
pub mod virtual_host;
