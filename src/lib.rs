//! Client side of µRPC, a small binary protocol for calling numbered
//! procedures exported by an embedded endpoint over a byte channel.

pub mod error;
pub mod wire;
pub mod text;
pub mod channel;
pub mod types;
pub mod procedure;
pub mod client;

pub use error::Error;
pub use types::{Type, Value};
pub use procedure::Procedure;
pub use client::Client;
pub use channel::Channel;
