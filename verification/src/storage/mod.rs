pub mod table;
pub mod toml_storage;
pub mod transfer_history;
pub mod import;
