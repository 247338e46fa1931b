//! Providers that keep ABIs, dates and versions as the text that a site shows,
//! and name the file before it is downloaded.

pub mod apkcombo;
pub mod apkmirror;
pub mod apkpure;
pub mod commands;
pub mod contract;
pub mod fetch;
pub mod named;
pub mod uptodown;
pub mod urls;
