//! What holds of the library as a whole: laws over what its functions return, each
//! stated without the definitions that the functions themselves are held to.

pub mod texts;
pub mod calls;
pub mod terms;
pub mod fetching;
pub mod scraping;
pub mod combo;
pub mod mirror;
pub mod pure;
pub mod commands;
pub mod pages;
pub mod textual;
