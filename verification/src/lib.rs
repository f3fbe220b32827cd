//! Client core of the Magic Wormhole protocol.
//!
//! Two parties who share a short code meet through a rendezvous server,
//! agree on a key by a password-authenticated key exchange, and then
//! exchange messages or, over a transit connection, a file.
//!
//! - `engine` holds the protocol engine: the state machines of the
//!   rendezvous protocol, the driver that runs them, and what holds of
//!   every run.
//! - `transfer` holds the messages that the peers exchange once the key is
//!   set; `transit` and `handshake` hold the record layer and the handshake
//!   of the transit connection.
//! - `io` holds what stands between the engine and the outside world: the
//!   bookkeeping of timers and sockets, the hints, and the decisions of a
//!   blocking client.
//! - `crypto`, `hexcode`, `json`, `text` and `wordlist` hold what the rest
//!   is built on.
//!
//! The engine does no input or output of its own: it takes events and
//! gives actions.

pub mod crypto;
pub mod engine;
pub mod handshake;
pub mod hexcode;
pub mod io;
pub mod json;
pub mod text;
pub mod transfer;
pub mod transit;
pub mod wordlist;
