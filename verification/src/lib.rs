//! Privilege-escalation bootstrap and typed message channels.
//!
//! An unprivileged client spawns a privileged worker through an elevation
//! front-end and talks to it over a private point-to-point channel.  This
//! crate holds the verified core of that protocol: the execution strategies
//! and their descriptor-slot contract, the bootstrap and initialization
//! plans, the self-delimiting wire framing, the message codecs, and the
//! decoder state machine that tells graceful stream termination apart from
//! malformed payloads.  The process, socket and descriptor operations
//! themselves are performed by unverified callers against the plans and
//! classifications computed here.

pub mod address;
pub mod api;
pub mod channel;
pub mod executor;
pub mod json;
pub mod moss;
pub mod scan;
pub mod server;
pub mod service;
pub mod text;
