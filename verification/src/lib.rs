//! Query, cache, group and render records of a time-tracking account.

pub mod date;
pub mod model;
pub mod text;
pub mod grouping;
pub mod cache;
pub mod client;
pub mod table;
pub mod entries;
pub mod projects;
pub mod totals;
