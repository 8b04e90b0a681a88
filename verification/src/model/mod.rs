pub mod connection;
pub mod ids;
pub mod store;
pub mod tunnel;
