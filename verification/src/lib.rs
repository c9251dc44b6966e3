pub mod cached_broadcast;
pub mod clients;
pub mod config;
pub mod ipc;
pub mod search;
pub mod startup;
pub mod text;
