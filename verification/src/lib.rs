//! Decision logic of a single-session multipath transport server.
//!
//! The transport engine, the socket and the file system stay with the caller;
//! this library holds the rules that connect them: admission of a first packet,
//! address-validation tokens, connection identifiers, path scheduling, burst
//! pacing, buffering of short stream writes and the reaction to path events.

pub mod addr;
pub mod bytes;
pub mod connection_id;
pub mod lifecycle;
pub mod packet;
pub mod pacer;
pub mod request;
pub mod responder;
pub mod scheduler;
pub mod session;
pub mod telemetry;
pub mod token;
