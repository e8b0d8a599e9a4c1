//! The read side: what a request asks for and what is sent back.

pub mod autotools;
pub mod diff;
pub mod listing;
pub mod page;
pub mod render;
pub mod route;
pub mod search;
pub mod stats;
