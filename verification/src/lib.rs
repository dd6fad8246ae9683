pub mod error;
pub mod events;
pub mod mirror;
pub mod session;
pub mod trusted;
pub mod wire;
