//! Block-device backup planning: resolution of configured devices and
//! filesystems against an inventory, retention and admission rules, and the
//! sequencing of one backup run.

pub mod args;
pub mod backup;
pub mod backups;
pub mod config;
pub mod decimal;
pub mod device;
pub mod error;
pub mod filesystem;
pub mod lsblk;
pub mod paths;
pub mod protocol;
pub mod run;
pub mod text;
pub mod utils;
