//! Verified core of the RuboVision task engine.
#![allow(unused_imports)]

pub mod text;
pub mod vision;
pub mod config;
pub mod data_url;
pub mod device;
pub mod func;
pub mod init;
pub mod keyed;
pub mod message;
pub mod params;
pub mod source;
