pub mod connection;
pub mod manager;
pub mod packet;
pub mod protocol;
pub mod server;
pub mod types;
