pub mod client;
pub mod format;
pub mod handler;
pub mod json;
pub mod model;
