pub mod auth_guard;
pub mod utilities;
