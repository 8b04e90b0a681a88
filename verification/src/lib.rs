//! Connection manager logic for SSH: connection and tunnel models, the
//! command lines built from them, storage layouts, import of SSH
//! configuration, and the navigation state of the interactive screens.
pub mod model;
pub mod text;
pub mod paths;
pub mod ssh;
pub mod storage;
pub mod ui;
