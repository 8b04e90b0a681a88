pub mod actions;
pub mod key_setup;
pub mod system;
pub mod transfer;
pub mod tunnel;
