//! The verified core of a download manager: what a task is, how its pieces are laid out,
//! and every decision that the daemon takes about it.

pub mod capture;
pub mod cli;
pub mod config;
pub mod engine;
pub mod http;
pub mod ipc;
pub mod launch;
pub mod laws;
pub mod monitor;
pub mod number;
pub mod outside;
pub mod parts;
pub mod paths;
pub mod places;
pub mod probe;
pub mod registry;
pub mod report;
pub mod storage;
pub mod text;
pub mod transfer;
pub mod types;
pub mod unique_path;
pub mod youtube;
