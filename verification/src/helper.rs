//! The privileged helper: safe application of network settings, resources and the hosts file.

pub mod checking_laws;
pub mod command;
pub mod command_laws;
pub mod conduct_laws;
pub mod hosts;
pub mod hosts_laws;
pub mod keeper;
pub mod machine;
pub mod macos;
pub mod network_manager;
pub mod network_manager_laws;
pub mod nm_store;
pub mod operation_laws;
pub mod outside;
pub mod platform;
pub mod platform_laws;
pub mod programs;
pub mod reading_laws;
pub mod request_laws;
pub mod resource_laws;
pub mod resources;
pub mod safe_apply;
pub mod state_json;
pub mod windows;
