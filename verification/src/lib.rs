//! A peer-to-peer messaging client's protocol core: peers exchange
//! cryptographically signed direct messages and run a lightweight
//! friend trust-handshake (name exchange, name re-verification, friend
//! add/accept) over an overlay network's request/response primitive.
//!
//! Everything with an invariant lives here, verified: the canonical
//! byte encoding that signatures are computed over (`codec`), the
//! signed-envelope scheme and its ed25519 boundary (`network::signable`),
//! the two sub-protocols (`network::chat`, `network::friends`), the
//! event-loop state that multiplexes them (`network`), the settings
//! map (`settings`), and the terminal client's navigation state
//! (`tui`).  The overlay network itself, the terminal, and the file
//! system stay outside, behind the surrounding runtime.

pub mod codec;
pub mod network;
pub mod settings;
pub mod tui;
