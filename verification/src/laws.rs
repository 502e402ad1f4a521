//! What the operations are for: laws that say of each, in terms of what goes in and what comes
//! out, what a caller can rely on.

pub mod asking;
pub mod connections;
pub mod entries;
pub mod headers;
pub mod menus;
pub mod messages;
pub mod numbers;
pub mod pictures;
pub mod reports;
pub mod texts;
pub mod turns;
pub mod views;
