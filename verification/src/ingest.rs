//! The write side: what to do with each member of a package as it streams by.

pub mod rpm;
pub mod tar;
