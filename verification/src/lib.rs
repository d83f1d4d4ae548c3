//! Synchronisation core of a live polling service: the registry of
//! connections, the active ballot, the recorded votes and the messages that
//! go out to the connections after each event.

pub mod ballot;
pub mod broadcast;
pub mod decimal;
pub mod json;
pub mod message;
pub mod outbound;
pub mod registry;
pub mod service;
pub mod session;
pub mod votes;

pub use broadcast::Dispatch;
pub use message::{ClientMessage, ClientSetBallotData, ParseError};
pub use outbound::{ServerMessage, ServerSetBallotData};
pub use service::{Reaction, Refusal, Service};
