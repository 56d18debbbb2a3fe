//! Shared overlay state: a canonical ordered collection of named media items,
//! the commands that control sessions send to change it, and the events that
//! mirror each change to every other session.

pub mod access;
pub mod entries;
pub mod model;
pub mod mirror;
pub mod naming;
pub mod protocol;
pub mod session;
pub mod store;

pub use access::grants_control;
pub use mirror::handle_websocket_message;
pub use model::{MediaType, Position, ServerPlayer};
pub use protocol::{Event, Message};
pub use session::{IdSequence, Outcome, Session};
pub use store::Store;
