//! Multi-source APK resolution: the parsing, ranking and fallback rules.

pub mod cli;
pub mod common;
pub mod html;
pub mod laws;
pub mod model;
pub mod numbers;
pub mod order;
pub mod outside;
pub mod providers;
pub mod strings;
pub mod textual;
