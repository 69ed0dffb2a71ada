//! One service per group of remote calls.

pub mod asset;
pub mod config;
pub mod detail;
pub mod favorite;
pub mod rename;
pub mod setting;
pub mod token;
pub mod user;
