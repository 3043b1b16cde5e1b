pub mod broker;
pub mod connection;
pub mod console;
pub mod error;
pub mod msg;
pub mod session;
pub mod time;
pub mod wire;
