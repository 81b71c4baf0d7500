pub mod cache;
pub mod manager;
