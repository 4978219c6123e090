//! A build orchestrator for native projects: configuration resolution,
//! dependency planning, incremental compilation decisions and toolchain
//! argument construction, each stated and proved with Verus.

pub mod builder;
pub mod cache;
pub mod config;
pub mod dependency;
pub mod flags;
pub mod hooks;
pub mod incremental;
pub mod logger;
pub mod resolve;
pub mod text;
pub mod toolchain;
