//! Verified core logic of the thane terminal workspace manager.
pub mod text;
pub mod paths;
pub mod crypto;
pub mod timestamp;
pub mod audit;
pub mod secrets;
pub mod platform;
pub mod namespace;
pub mod pidlock;
pub mod version;
pub mod workspace_status;
pub mod stores;
pub mod protocol;
pub mod params;
pub mod headless;
pub mod ipc;
pub mod osc;
pub mod methods;
pub mod sandbox;
pub mod seccomp;
pub mod landlock;
pub mod seatbelt;
pub mod auth;
pub mod policy;
pub mod dirs;
pub mod claude_md;
