//! Verified core of a manager for decentralized Canton parties.

pub mod auth;
pub mod auth_laws;
pub mod cli;
pub mod config;
pub mod counting;
pub mod map;
pub mod outside;
pub mod server;
pub mod startup;
pub mod startup_laws;
pub mod text;
pub mod text_laws;
