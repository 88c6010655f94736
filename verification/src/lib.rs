//! A minimal terminal multiplexer: the protocol between client and daemon, and
//! what each of them decides.
pub mod buffer;
pub mod client;
pub mod kill;
pub mod launch;
pub mod protocol;
pub mod protocol_laws;
pub mod server;
pub mod session;
pub mod text;
pub mod text_laws;
pub mod utils;
pub mod wire;
