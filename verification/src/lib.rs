//! Protocol-level definitions and the decision logic of a Wayland implementation:
//! argument types and signatures, a server-side object and global registry,
//! event queue dispatching rules, and the choices made by the protocol scanner
//! when it turns a protocol description into code.
pub mod protocol;
pub mod text;
pub mod server;
pub mod names;
pub mod scanner;
pub mod event_queue;
