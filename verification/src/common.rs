//! What the providers share: the contract they meet and how pages are fetched.

pub mod contract;
pub mod fallback;
pub mod fetch;
pub mod flow;
pub mod registry;
