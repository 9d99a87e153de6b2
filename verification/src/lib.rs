pub mod handler;
pub mod json;
pub mod store;
pub mod user;
