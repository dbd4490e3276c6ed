//! Screen locker core: configuration reading, display power decisions and
//! the bookkeeping of the locker's windows and savers.

pub mod seq_facts;
pub mod toml_access;
pub mod config;
pub mod display;
pub mod locker;
