//! Verified core of the Ipeenv local web development environment manager.

pub mod text;
pub mod version;
pub mod order;
pub mod catalog;
pub mod ini;
pub mod naming;
pub mod paths;
pub mod config;
pub mod packages;
pub mod download;
pub mod archive;
pub mod runtime;
pub mod dependencies;
pub mod services;
pub mod starting;
pub mod apache;
pub mod hosts;
pub mod tools;
pub mod project;
pub mod creating;
pub mod opening;
pub mod environment;
pub mod firewall;
