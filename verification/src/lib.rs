//! The verified core of a user-space WireGuard server: key texts, the server's
//! configuration, the handles an embedding application holds, and the bridge between
//! those handles and a TCP/IP stack.

pub mod address;
pub mod bridge;
pub mod connection;
pub mod datalink;
pub mod engine;
pub mod history;
pub mod keys;
pub mod lifetime;
pub mod messages;
pub mod packet;
pub mod server;
pub mod stream;
pub mod text;
