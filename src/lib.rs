//! Directory listing: entry visibility, directories-first ordering, size
//! bucketing and line rendering, with the filesystem reads left to callers.
pub mod size;
pub mod name;
pub mod timestamp;
pub mod listing;
pub mod render;
pub mod outcome;
