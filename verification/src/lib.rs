//! Verified core of a tray monitor that answers permission requests and shows account usage.

pub mod binary64;
pub mod decimal;
pub mod guarantees;
pub mod hook;
pub mod http;
pub mod icon;
pub mod json;
pub mod laws;
pub mod menu;
pub mod promote;
pub mod protocol;
pub mod rounding;
pub mod session;
pub mod statusline;
pub mod text;
pub mod tray;
pub mod usage;
