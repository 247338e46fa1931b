//! The sites: how their pages are read and how a download is found on them.

pub mod apkcombo;
pub mod apkmirror;
pub mod apkpure;
pub mod fixtures;
pub mod scrape;
