pub mod boot;
pub mod command;
pub mod ip;
pub mod login;
pub mod mounts;
pub mod reaper;
pub mod session;
pub mod signal;
