pub mod input;
pub mod listing;
pub mod file_tree;
pub mod remote_file_tree;
pub mod transfer;
pub mod quick_actions;
pub mod app;
pub mod editor;
pub mod tunnels;
pub mod browse;
pub mod detail;
