//! Cave: registry, text and state logic for a PXE-booted node cluster.
pub mod config;
pub mod deploy;
pub mod hypervisor;
pub mod images;
pub mod lifecycle;
pub mod list;
pub mod mac;
pub mod order;
pub mod probes;
pub mod poll;
pub mod remote;
pub mod server;
pub mod ssh_config;
pub mod status;
pub mod text;
pub mod tui;
pub mod ui;
pub mod vm;
pub mod watcher;
pub mod wipe;
