//! Reactive change-triggered test runner: the decisions of a watch session,
//! the project classifier, and a few helpers of the surrounding tool.

pub mod language;
pub mod runner;
pub mod ignore;
pub mod paths;
pub mod session;
pub mod envcheck;
pub mod text;
pub mod ports;
pub mod dash;
pub mod cli;
pub mod config;
pub mod plugin;
pub mod snapshot;
pub mod split;
pub mod logs;
pub mod sanitize;
