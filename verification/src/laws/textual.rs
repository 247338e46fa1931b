//! Laws of the interface in which versions, dates and ABIs are texts.

pub mod combo;
pub mod mirror;
pub mod pure;
pub mod uptodown;
pub mod terms;
pub mod fetching;
pub mod commands;
